//! The fatal conditions that end a run of the machine.

use vstd::prelude::*;

verus! {

/// A fatal condition raised while fetching, decoding, or executing one
/// instruction.  None of these is recoverable: the driver is expected to
/// stop the run and report the condition.
#[derive(Clone, Copy, Debug, PartialEq, Eq, Structural)]
pub enum EmuError {
    /// The 16-bit word carried here matches no known instruction shape.
    InvalidOpcode(u16),
    /// A subroutine call was made with the call stack already at capacity.
    StackOverflow,
    /// A return was executed with an empty call stack.
    StackUnderflow,
    /// An address generated for a read or write falls outside memory.
    MemoryFault,
}

} // verus!
