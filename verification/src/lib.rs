//! A verified interpreter core for a classic 8-bit virtual machine: 4 KB of
//! memory, sixteen 8-bit registers, a bounded call stack, two countdown
//! timers, and a 64x32 monochrome pixel grid.  The fetch-decode-execute
//! engine is specified by a transition relation over a mathematical model of
//! the machine state; windowing, input events, and audio are left to an
//! external driver.

pub mod controller;
pub mod decoder;
pub mod display;
pub mod emulator;
pub mod error;
pub mod font;
