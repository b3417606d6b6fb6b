//! The machine itself: memory, registers, call stack, timers, display, and
//! input latch, together with the fetch-decode-execute engine.  Every
//! instruction's effect is specified by the transition relation
//! [`step_spec`] over the mathematical model [`State`], and a whole
//! fetch-decode-execute cycle by [`cycle_spec`].

use crate::controller::{key_held, Controller};
use crate::decoder::{spec_decode, Instruction, ParsedInstruction};
use crate::display::{all_pixels_off, Display};
use crate::error::EmuError;
use crate::font::{font_seq, font_table, FONT_OFFSET};
use rand::Rng;
use vstd::prelude::*;

verus! {

/// Size of the addressable memory in bytes.
pub const MEMORY_SIZE: usize = 4096;

/// The fixed address at which a loaded program begins.
pub const PROGRAM_OFFSET: usize = 512;

/// Maximum number of return addresses the call stack holds.
pub const STACK_CAPACITY: usize = 16;

/// The mathematical model of the whole machine state.
#[verifier::ext_equal]
pub ghost struct State {
    /// The 4096 addressable bytes.
    pub memory: Seq<u8>,
    /// The sixteen general registers V0..VF.
    pub regs: Seq<u8>,
    /// The program counter.
    pub pc: u16,
    /// The index register I.
    pub index: u16,
    /// The call stack of return addresses, most recent last.
    pub stack: Seq<u16>,
    /// The delay timer.
    pub delay: u8,
    /// The sound timer.
    pub sound: u8,
    /// The 64x32 pixel grid, row-major.
    pub pixels: Seq<bool>,
    /// Whether the display changed since the renderer last consumed it.
    pub draw: bool,
    /// Held state of the sixteen logical keys.
    pub keys: Seq<bool>,
    /// The most recently pressed key that is still held, if any.
    pub last_key: Option<u8>,
}

/// The structural invariant of a machine state: every component has its
/// fixed size, the index register stays within the 12-bit address space,
/// and the call stack stays within capacity.
pub open spec fn wf_state(s: State) -> bool {
    &&& s.memory.len() == 4096
    &&& s.regs.len() == 16
    &&& s.stack.len() <= 16
    &&& s.index <= 0xFFF
    &&& s.pixels.len() == 2048
    &&& s.keys.len() == 16
    &&& (s.last_key matches Some(k) ==> k < 16)
}

/// Addition wrapping around an 8-bit register.
pub open spec fn byte_add(a: u8, b: u8) -> u8 {
    ((a + b) % 256) as u8
}

/// Subtraction wrapping around an 8-bit register.
pub open spec fn byte_sub(a: u8, b: u8) -> u8 {
    ((a - b + 256) % 256) as u8
}

/// The carry flag of `a + b`: 1 exactly when the sum overflows a byte.
pub open spec fn carry_flag(a: u8, b: u8) -> u8 {
    if a + b > 255 {
        1u8
    } else {
        0u8
    }
}

/// The borrow flag of `a - b`: 0 exactly when the subtraction borrows,
/// else 1.
pub open spec fn borrow_flag(a: u8, b: u8) -> u8 {
    if a >= b {
        1u8
    } else {
        0u8
    }
}

/// The register file after an arithmetic instruction: the result goes to
/// V[x] first, then the flag to VF, so on x = 0xF the flag wins.
pub open spec fn regs_with_flag(regs: Seq<u8>, x: int, res: u8, flag: u8) -> Seq<u8> {
    regs.update(x, res).update(15, flag)
}

/// The state after a conditional skip: the program counter moves past the
/// next instruction word exactly when `cond` holds.
pub open spec fn skip_if(pre: State, cond: bool) -> State {
    if cond {
        State { pc: (pre.pc + 2) as u16, ..pre }
    } else {
        pre
    }
}

/// Whether bit `i` (0 = leftmost, most significant) of a sprite row byte
/// is set.
pub open spec fn sprite_bit(b: u8, i: int) -> bool {
    (b >> ((7 - i) as u8)) & 1 == 1
}

/// Whether the sprite with rows `rows`, drawn with its top-left corner at
/// `(x0, y0)`, covers the pixel at column `col`, row `row` with a set bit.
/// Pixels past the right or bottom screen edge have `col` or `row` out of
/// the grid and are never covered: the sprite clips, it does not wrap.
pub open spec fn sprite_covers(rows: Seq<u8>, x0: int, y0: int, col: int, row: int) -> bool {
    &&& y0 <= row < y0 + rows.len()
    &&& x0 <= col < x0 + 8
    &&& sprite_bit(rows[row - y0], col - x0)
}

/// The pixel grid after an XOR blit of the sprite: every covered pixel is
/// toggled, every other pixel keeps its value.
pub open spec fn draw_pixels(pixels: Seq<bool>, rows: Seq<u8>, x0: int, y0: int) -> Seq<bool> {
    Seq::new(pixels.len(), |idx: int| pixels[idx] != sprite_covers(rows, x0, y0, idx % 64, idx / 64))
}

/// Whether the blit toggles at least one pixel among the first `lim`.
pub open spec fn draw_hits_upto(
    pixels: Seq<bool>,
    rows: Seq<u8>,
    x0: int,
    y0: int,
    lim: int,
) -> bool {
    exists|j: int| 0 <= j < lim && #[trigger] sprite_covers(rows, x0, y0, j % 64, j / 64)
}

/// Whether the blit toggles at least one pixel that was already set, among
/// the first `lim` (the collision condition).
pub open spec fn draw_collides_upto(
    pixels: Seq<bool>,
    rows: Seq<u8>,
    x0: int,
    y0: int,
    lim: int,
) -> bool {
    exists|j: int| 0 <= j < lim && #[trigger] sprite_covers(rows, x0, y0, j % 64, j / 64)
        && pixels[j]
}

/// Whether the blit toggles at least one pixel.
pub open spec fn draw_hits(pixels: Seq<bool>, rows: Seq<u8>, x0: int, y0: int) -> bool {
    draw_hits_upto(pixels, rows, x0, y0, pixels.len() as int)
}

/// Whether the blit toggles at least one already-set pixel.
pub open spec fn draw_collides(pixels: Seq<bool>, rows: Seq<u8>, x0: int, y0: int) -> bool {
    draw_collides_upto(pixels, rows, x0, y0, pixels.len() as int)
}

/// How many cells of a block of `x + 1` cells starting at `base` fit
/// inside memory; the block instructions stop at the first address past
/// the end.
pub open spec fn block_cnt(base: int, x: int) -> int {
    if 4096 - base < x + 1 {
        4096 - base
    } else {
        x + 1
    }
}

/// Memory after storing registers V0..V(cnt-1) at `base` onward.
pub open spec fn mem_after_store(mem: Seq<u8>, regs: Seq<u8>, base: int, cnt: int) -> Seq<u8> {
    Seq::new(mem.len(), |a: int| if base <= a < base + cnt { regs[a - base] } else { mem[a] })
}

/// Registers after loading V0..V(cnt-1) from `base` onward.
pub open spec fn regs_after_load(regs: Seq<u8>, mem: Seq<u8>, base: int, cnt: int) -> Seq<u8> {
    Seq::new(16, |j: int| if 0 <= j < cnt { mem[base + j] } else { regs[j] })
}

/// Machine limits the executing step needs of the program counter: room
/// for one extra advance on the skip instructions, room to step back on
/// wait-for-key.  A fetched instruction always satisfies both, since the
/// fetch leaves the program counter between 2 and 4096.
pub open spec fn pc_preconditions(pi: ParsedInstruction, pc: u16) -> bool {
    &&& ((pi.instruction == Instruction::SkipIfEqualImmediate || pi.instruction
        == Instruction::SkipIfNotEqualImmediate || pi.instruction
        == Instruction::SkipIfEqualRegister || pi.instruction
        == Instruction::SkipIfNotEqualRegister || pi.instruction == Instruction::KeyDown
        || pi.instruction == Instruction::KeyNotDown) ==> pc <= 0xFFFD)
    &&& (pi.instruction == Instruction::WaitForKeyPress ==> pc >= 2)
}

/// The 16-bit instruction word at address `pc`: the byte there is the
/// high half, the byte after it the low half.
pub open spec fn fetch_word(mem: Seq<u8>, pc: int) -> u16 {
    ((mem[pc] as u16) << 8) | (mem[pc + 1] as u16)
}

/// The transition relation of the execution engine: executing the decoded
/// instruction `pi` in state `pre` yields state `post` and outcome `r`.
/// Every instruction either applies in full with `Ok` or, on a fatal
/// condition, leaves the state unchanged with the specific error — except
/// the block store/load, which run cell by cell and keep the cells written
/// before a memory fault.
pub open spec fn step_spec(
    pre: State,
    pi: ParsedInstruction,
    post: State,
    r: Result<(), EmuError>,
) -> bool {
    match pi.instruction {
        Instruction::Clear => r is Ok && post == (State {
            pixels: all_pixels_off(),
            draw: true,
            ..pre
        }),
        Instruction::PopStack => if pre.stack.len() == 0 {
            r == Err::<(), EmuError>(EmuError::StackUnderflow) && post == pre
        } else {
            r is Ok && post == (State { pc: pre.stack.last(), stack: pre.stack.drop_last(), ..pre })
        },
        Instruction::SetProgramCounter => r is Ok && post == (State { pc: pi.nnn, ..pre }),
        Instruction::PushStackSetProgramCounter => if pre.stack.len() >= 16 {
            r == Err::<(), EmuError>(EmuError::StackOverflow) && post == pre
        } else {
            r is Ok && post == (State { pc: pi.nnn, stack: pre.stack.push(pre.pc), ..pre })
        },
        Instruction::SkipIfEqualImmediate => r is Ok && post == skip_if(
            pre,
            pre.regs[pi.x as int] == pi.nn,
        ),
        Instruction::SkipIfNotEqualImmediate => r is Ok && post == skip_if(
            pre,
            pre.regs[pi.x as int] != pi.nn,
        ),
        Instruction::SkipIfEqualRegister => r is Ok && post == skip_if(
            pre,
            pre.regs[pi.x as int] == pre.regs[pi.y as int],
        ),
        Instruction::SkipIfNotEqualRegister => r is Ok && post == skip_if(
            pre,
            pre.regs[pi.x as int] != pre.regs[pi.y as int],
        ),
        Instruction::SetRegister => r is Ok && post == (State {
            regs: pre.regs.update(pi.x as int, pi.nn),
            ..pre
        }),
        Instruction::AddToRegister => r is Ok && post == (State {
            regs: pre.regs.update(pi.x as int, byte_add(pre.regs[pi.x as int], pi.nn)),
            ..pre
        }),
        Instruction::CopyFromRegisterToRegister => r is Ok && post == (State {
            regs: pre.regs.update(pi.x as int, pre.regs[pi.y as int]),
            ..pre
        }),
        Instruction::LogicalOr => r is Ok && post == (State {
            regs: pre.regs.update(pi.x as int, pre.regs[pi.x as int] | pre.regs[pi.y as int]),
            ..pre
        }),
        Instruction::LogicalAnd => r is Ok && post == (State {
            regs: pre.regs.update(pi.x as int, pre.regs[pi.x as int] & pre.regs[pi.y as int]),
            ..pre
        }),
        Instruction::LogicalXor => r is Ok && post == (State {
            regs: pre.regs.update(pi.x as int, pre.regs[pi.x as int] ^ pre.regs[pi.y as int]),
            ..pre
        }),
        Instruction::Addition => r is Ok && post == (State {
            regs: regs_with_flag(
                pre.regs,
                pi.x as int,
                byte_add(pre.regs[pi.x as int], pre.regs[pi.y as int]),
                carry_flag(pre.regs[pi.x as int], pre.regs[pi.y as int]),
            ),
            ..pre
        }),
        Instruction::Subtraction => r is Ok && post == (State {
            regs: regs_with_flag(
                pre.regs,
                pi.x as int,
                byte_sub(pre.regs[pi.x as int], pre.regs[pi.y as int]),
                borrow_flag(pre.regs[pi.x as int], pre.regs[pi.y as int]),
            ),
            ..pre
        }),
        Instruction::RightShift => r is Ok && post == (State {
            regs: regs_with_flag(
                pre.regs,
                pi.x as int,
                (pre.regs[pi.x as int] / 2) as u8,
                (pre.regs[pi.x as int] % 2) as u8,
            ),
            ..pre
        }),
        Instruction::FlippedSubtraction => r is Ok && post == (State {
            regs: regs_with_flag(
                pre.regs,
                pi.x as int,
                byte_sub(pre.regs[pi.y as int], pre.regs[pi.x as int]),
                borrow_flag(pre.regs[pi.y as int], pre.regs[pi.x as int]),
            ),
            ..pre
        }),
        Instruction::LeftShift => r is Ok && post == (State {
            regs: regs_with_flag(
                pre.regs,
                pi.x as int,
                ((pre.regs[pi.x as int] * 2) % 256) as u8,
                (pre.regs[pi.x as int] / 128) as u8,
            ),
            ..pre
        }),
        Instruction::SetIndexRegister => r is Ok && post == (State { index: pi.nnn, ..pre }),
        Instruction::SetProgramCounterOffset => r is Ok && post == (State {
            pc: (pi.nnn + pre.regs[0]) as u16,
            ..pre
        }),
        Instruction::RandomNumber => r is Ok && exists|b: u8|
            post == (State { regs: pre.regs.update(pi.x as int, b & pi.nn), ..pre }),
        Instruction::Draw => {
            let start = pre.index as int;
            let count = pi.n as int;
            if start + count > 4096 {
                r == Err::<(), EmuError>(EmuError::MemoryFault) && post == pre
            } else {
                let x0 = pre.regs[pi.x as int] % 64;
                let y0 = pre.regs[pi.y as int] % 32;
                let rows = pre.memory.subrange(start, start + count);
                r is Ok && post == (State {
                    pixels: draw_pixels(pre.pixels, rows, x0 as int, y0 as int),
                    regs: pre.regs.update(
                        15,
                        if draw_collides(pre.pixels, rows, x0 as int, y0 as int) {
                            1u8
                        } else {
                            0u8
                        },
                    ),
                    draw: pre.draw || draw_hits(pre.pixels, rows, x0 as int, y0 as int),
                    ..pre
                })
            }
        },
        Instruction::KeyDown => r is Ok && post == skip_if(
            pre,
            key_held(pre.keys, pre.regs[pi.x as int]),
        ),
        Instruction::KeyNotDown => r is Ok && post == skip_if(
            pre,
            !key_held(pre.keys, pre.regs[pi.x as int]),
        ),
        Instruction::CopyDelayTimer => r is Ok && post == (State {
            regs: pre.regs.update(pi.x as int, pre.delay),
            ..pre
        }),
        Instruction::SetDelayTimer => r is Ok && post == (State {
            delay: pre.regs[pi.x as int],
            ..pre
        }),
        Instruction::SetSoundTimer => r is Ok && post == (State {
            sound: pre.regs[pi.x as int],
            ..pre
        }),
        Instruction::AddToIndexRegister => {
            let sum = pre.index + pre.regs[pi.x as int];
            r is Ok && post == (State {
                index: (sum % 0x1000) as u16,
                regs: if sum > 0xFFF {
                    pre.regs.update(15, 1u8)
                } else {
                    pre.regs
                },
                ..pre
            })
        },
        Instruction::WaitForKeyPress => match pre.last_key {
            Some(k) => r is Ok && post == (State { regs: pre.regs.update(pi.x as int, k), ..pre }),
            None => r is Ok && post == (State { pc: (pre.pc - 2) as u16, ..pre }),
        },
        Instruction::SetIndexRegisterToFontCharacter => r is Ok && post == (State {
            index: (80 + (pre.regs[pi.x as int] & 0x0F)) as u16,
            ..pre
        }),
        Instruction::ConvertToDecimal => {
            let base = pre.index as int;
            let v = pre.regs[pi.x as int];
            if base + 2 > 4095 {
                r == Err::<(), EmuError>(EmuError::MemoryFault) && post == pre
            } else {
                r is Ok && post == (State {
                    memory: pre.memory.update(base, (v / 100) as u8).update(
                        base + 1,
                        ((v / 10) % 10) as u8,
                    ).update(base + 2, (v % 10) as u8),
                    ..pre
                })
            }
        },
        Instruction::WriteToMemory => {
            let base = pre.index as int;
            let cnt = block_cnt(base, pi.x as int);
            &&& post == (State { memory: mem_after_store(pre.memory, pre.regs, base, cnt), ..pre })
            &&& if cnt == pi.x + 1 {
                r is Ok
            } else {
                r == Err::<(), EmuError>(EmuError::MemoryFault)
            }
        },
        Instruction::ReadFromMemory => {
            let base = pre.index as int;
            let cnt = block_cnt(base, pi.x as int);
            &&& post == (State { regs: regs_after_load(pre.regs, pre.memory, base, cnt), ..pre })
            &&& if cnt == pi.x + 1 {
                r is Ok
            } else {
                r == Err::<(), EmuError>(EmuError::MemoryFault)
            }
        },
    }
}

/// The transition relation of one whole fetch-decode-execute cycle:
/// fetch the word at the program counter (a fatal memory fault if the two
/// bytes do not fit in memory), advance the program counter past it,
/// decode, and execute.  A fetch or decode failure leaves the state
/// unchanged.
pub open spec fn cycle_spec(pre: State, post: State, r: Result<(), EmuError>) -> bool {
    if pre.pc + 1 >= 4096 {
        r == Err::<(), EmuError>(EmuError::MemoryFault) && post == pre
    } else {
        let w = fetch_word(pre.memory, pre.pc as int);
        match spec_decode(w) {
            None => r == Err::<(), EmuError>(EmuError::InvalidOpcode(w)) && post == pre,
            Some(ins) => step_spec(
                State { pc: (pre.pc + 2) as u16, ..pre },
                ParsedInstruction::spec_of(w, ins),
                post,
                r,
            ),
        }
    }
}

/// The machine.  Created once per program load; mutated one instruction at
/// a time by the engine, and by the external driver only through the input
/// latch, the timers, and the display's redraw flag.
pub struct Emulator {
    pub memory: Vec<u8>,
    pub display: Display,
    pub program_counter: u16,
    pub index_register: u16,
    pub stack: Vec<u16>,
    pub delay_timer: u8,
    pub sound_timer: u8,
    pub registers: Vec<u8>,
    pub controller: Controller,
}

impl View for Emulator {
    type V = State;

    open spec fn view(&self) -> State {
        State {
            memory: self.memory@,
            regs: self.registers@,
            pc: self.program_counter,
            index: self.index_register,
            stack: self.stack@,
            delay: self.delay_timer,
            sound: self.sound_timer,
            pixels: self.display.buffer@,
            draw: self.display.draw,
            keys: self.controller.pressed@,
            last_key: self.controller.last_pressed,
        }
    }
}

impl Emulator {
    /// The machine's representation models a well-formed state.
    pub open spec fn wf(&self) -> bool {
        wf_state(self@)
    }

    /// Builds a fresh machine with `program` loaded: the font glyphs at
    /// their fixed low region, the program bytes verbatim from address
    /// 512, every other byte zero, the program counter at 512, and all
    /// registers, timers, stack, display, and input state cleared.
    pub fn new(program: Vec<u8>) -> (e: Emulator)
        requires
            program@.len() <= 3584,
        ensures
            e.wf(),
            forall|a: int|
                80 <= a < 160 ==> e@.memory[a] == font_seq()[a - 80],
            forall|a: int|
                512 <= a < 512 + program@.len() ==> e@.memory[a] == program@[a - 512],
            forall|a: int|
                (0 <= a < 80 || 160 <= a < 512 || 512 + program@.len() <= a < 4096)
                    ==> e@.memory[a] == 0,
            e@.regs == Seq::new(16, |i: int| 0u8),
            e@.pc == 512,
            e@.index == 0,
            e@.stack == Seq::<u16>::empty(),
            e@.delay == 0,
            e@.sound == 0,
            e@.pixels == all_pixels_off(),
            !e@.draw,
            forall|k: int| 0 <= k < 16 ==> !e@.keys[k],
            e@.last_key is None,
    {
        let mut memory: Vec<u8> = Vec::new();
        let mut a: usize = 0;
        while a < 4096
            invariant
                a <= 4096,
                memory@.len() == a,
                forall|j: int| 0 <= j < a ==> memory@[j] == 0,
            decreases 4096 - a,
        {
            memory.push(0);
            a += 1;
        }
        let font = font_table();
        let mut f: usize = 0;
        while f < 80
            invariant
                f <= 80,
                memory@.len() == 4096,
                font@ == font_seq(),
                forall|j: int| 80 <= j < 80 + f ==> memory@[j] == font_seq()[j - 80],
                forall|j: int| (0 <= j < 80 || 80 + f <= j < 4096) ==> memory@[j] == 0,
            decreases 80 - f,
        {
            memory[80 + f] = font[f];
            f += 1;
        }
        let mut p: usize = 0;
        while p < program.len()
            invariant
                program@.len() <= 3584,
                p <= program@.len(),
                memory@.len() == 4096,
                forall|j: int| 80 <= j < 160 ==> memory@[j] == font_seq()[j - 80],
                forall|j: int| 512 <= j < 512 + p ==> memory@[j] == program@[j - 512],
                forall|j: int|
                    (0 <= j < 80 || 160 <= j < 512 || 512 + p <= j < 4096) ==> memory@[j] == 0,
            decreases program@.len() - p,
        {
            memory[512 + p] = program[p];
            p += 1;
        }
        let mut registers: Vec<u8> = Vec::new();
        let mut i: usize = 0;
        while i < 16
            invariant
                i <= 16,
                registers@.len() == i,
                forall|j: int| 0 <= j < i ==> registers@[j] == 0,
            decreases 16 - i,
        {
            registers.push(0);
            i += 1;
        }
        proof {
            assert(registers@ =~= Seq::new(16, |i: int| 0u8));
        }
        Emulator {
            memory,
            display: Display::new(),
            program_counter: 512,
            index_register: 0,
            stack: Vec::new(),
            delay_timer: 0,
            sound_timer: 0,
            registers,
            controller: Controller::new(),
        }
    }

    /// One tick of the timer cadence: each timer counts down by one if it
    /// is nonzero and never below zero; nothing else changes.
    pub fn tick_timers(&mut self)
        requires
            old(self).wf(),
        ensures
            final(self).wf(),
            final(self)@ == (State {
                delay: if old(self)@.delay > 0 { (old(self)@.delay - 1) as u8 } else { 0u8 },
                sound: if old(self)@.sound > 0 { (old(self)@.sound - 1) as u8 } else { 0u8 },
                ..old(self)@
            }),
    {
        if self.delay_timer > 0 {
            self.delay_timer = self.delay_timer - 1;
        }
        if self.sound_timer > 0 {
            self.sound_timer = self.sound_timer - 1;
        }
    }

    /// Writes a masked random byte into V[x]: the register becomes
    /// `b & nn` for the byte `b` that the random source produced; nothing
    /// else changes.  Verified for every value of `b`.
    pub fn apply_random(&mut self, x: usize, nn: u8, b: u8)
        requires
            old(self).wf(),
            x < 16,
        ensures
            final(self).wf(),
            final(self)@ == (State { regs: old(self)@.regs.update(x as int, b & nn), ..old(self)@ }),
    {
        self.registers[x] = b & nn;
    }

    /// The draw instruction: XOR-blits the `n`-row sprite at memory
    /// address I onto the grid at `(V[x] mod 64, V[y] mod 32)`, clipping
    /// at the right and bottom edges, writing the collision flag to VF,
    /// and marking the display changed if any pixel toggled.  Reading
    /// sprite bytes past the end of memory is a memory fault that leaves
    /// the state unchanged.
    pub fn execute_draw_instruction(&mut self, pi: &ParsedInstruction) -> (r: Result<
        (),
        EmuError,
    >)
        requires
            old(self).wf(),
            pi.wf(),
            pi.instruction == Instruction::Draw,
        ensures
            final(self).wf(),
            step_spec(old(self)@, *pi, final(self)@, r),
    {
        let start = self.index_register as usize;
        let n = pi.n as usize;
        if start + n > 4096 {
            return Err(EmuError::MemoryFault);
        }
        let ghost pre = self@;
        let ghost rows: Seq<u8> = self.memory@.subrange(start as int, (start + n) as int);
        let x0 = (self.registers[pi.x] % 64) as usize;
        let y0 = (self.registers[pi.y] % 32) as usize;
        let ghost x0i = x0 as int;
        let ghost y0i = y0 as int;
        let mut newbuf: Vec<bool> = Vec::new();
        let mut vf: u8 = 0;
        let mut any: bool = false;
        let mut idx: usize = 0;
        while idx < 2048
            invariant
                self@ == pre,
                self.wf(),
                pi.wf(),
                start == pre.index,
                n == pi.n,
                start + n <= 4096,
                rows == pre.memory.subrange(start as int, (start + n) as int),
                rows.len() == n,
                x0i == pre.regs[pi.x as int] % 64,
                y0i == pre.regs[pi.y as int] % 32,
                x0 == x0i,
                y0 == y0i,
                0 <= x0i < 64,
                0 <= y0i < 32,
                idx <= 2048,
                newbuf@.len() == idx,
                forall|j: int|
                    0 <= j < idx ==> newbuf@[j] == (pre.pixels[j] != sprite_covers(
                        rows,
                        x0i,
                        y0i,
                        j % 64,
                        j / 64,
                    )),
                vf == (if draw_collides_upto(pre.pixels, rows, x0i, y0i, idx as int) {
                    1u8
                } else {
                    0u8
                }),
                any == draw_hits_upto(pre.pixels, rows, x0i, y0i, idx as int),
            decreases 2048 - idx,
        {
            let row = idx / 64;
            let col = idx % 64;
            let mut cov = false;
            if row >= y0 && row < y0 + n && col >= x0 && col < x0 + 8 {
                let rbyte = self.memory[start + (row - y0)];
                let sh = (7 - (col - x0)) as u8;
                if (rbyte >> sh) & 1 == 1 {
                    cov = true;
                }
            }
            proof {
                assert(cov == sprite_covers(rows, x0i, y0i, (idx as int) % 64, (idx as int) / 64));
            }
            let cur = self.display.buffer[idx];
            proof {
                lemma_upto_step(pre.pixels, rows, x0i, y0i, idx as int);
            }
            if cov {
                any = true;
                if cur {
                    vf = 1;
                }
            }
            newbuf.push(cur != cov);
            idx += 1;
        }
        proof {
            assert(newbuf@ =~= draw_pixels(pre.pixels, rows, x0i, y0i));
        }
        self.display.buffer = newbuf;
        self.registers[15] = vf;
        if any {
            self.display.draw = true;
        }
        proof {
            assert(self@ == (State {
                pixels: draw_pixels(pre.pixels, rows, x0i, y0i),
                regs: pre.regs.update(
                    15,
                    if draw_collides(pre.pixels, rows, x0i, y0i) {
                        1u8
                    } else {
                        0u8
                    },
                ),
                draw: pre.draw || draw_hits(pre.pixels, rows, x0i, y0i),
                ..pre
            }));
        }
        Ok(())
    }

    /// The block store: copies registers V0..Vx to memory at I onward,
    /// cell by cell; a cell past the end of memory is a memory fault that
    /// keeps the cells already written.
    fn execute_write_to_memory(&mut self, pi: &ParsedInstruction) -> (r: Result<(), EmuError>)
        requires
            old(self).wf(),
            pi.wf(),
            pi.instruction == Instruction::WriteToMemory,
        ensures
            final(self).wf(),
            step_spec(old(self)@, *pi, final(self)@, r),
    {
        let ghost pre = self@;
        let base = self.index_register as usize;
        let mut i: usize = 0;
        while i <= pi.x
            invariant
                pre == old(self)@,
                pi.wf(),
                pi.instruction == Instruction::WriteToMemory,
                base == pre.index,
                base <= 0xFFF,
                i <= pi.x + 1,
                base + i <= 4096,
                wf_state(pre),
                self@ == (State {
                    memory: mem_after_store(pre.memory, pre.regs, base as int, i as int),
                    ..pre
                }),
            decreases pi.x + 1 - i,
        {
            if base + i >= 4096 {
                proof {
                    assert(block_cnt(base as int, pi.x as int) == i);
                }
                return Err(EmuError::MemoryFault);
            }
            self.memory[base + i] = self.registers[i];
            proof {
                assert(mem_after_store(pre.memory, pre.regs, base as int, i as int).update(
                    base + i,
                    pre.regs[i as int],
                ) =~= mem_after_store(pre.memory, pre.regs, base as int, i as int + 1));
            }
            i += 1;
        }
        proof {
            assert(block_cnt(base as int, pi.x as int) == pi.x + 1);
        }
        Ok(())
    }

    /// The block load: copies memory at I onward into registers V0..Vx,
    /// cell by cell; a cell past the end of memory is a memory fault that
    /// keeps the registers already loaded.
    fn execute_read_from_memory(&mut self, pi: &ParsedInstruction) -> (r: Result<(), EmuError>)
        requires
            old(self).wf(),
            pi.wf(),
            pi.instruction == Instruction::ReadFromMemory,
        ensures
            final(self).wf(),
            step_spec(old(self)@, *pi, final(self)@, r),
    {
        let ghost pre = self@;
        let base = self.index_register as usize;
        let mut i: usize = 0;
        while i <= pi.x
            invariant
                pre == old(self)@,
                pi.wf(),
                pi.instruction == Instruction::ReadFromMemory,
                base == pre.index,
                base <= 0xFFF,
                i <= pi.x + 1,
                base + i <= 4096,
                wf_state(pre),
                self@ == (State {
                    regs: regs_after_load(pre.regs, pre.memory, base as int, i as int),
                    ..pre
                }),
            decreases pi.x + 1 - i,
        {
            if base + i >= 4096 {
                proof {
                    assert(block_cnt(base as int, pi.x as int) == i);
                }
                return Err(EmuError::MemoryFault);
            }
            let val = self.memory[base + i];
            self.registers[i] = val;
            proof {
                assert(regs_after_load(pre.regs, pre.memory, base as int, i as int).update(
                    i as int,
                    pre.memory[base + i],
                ) =~= regs_after_load(pre.regs, pre.memory, base as int, i as int + 1));
            }
            i += 1;
        }
        proof {
            assert(block_cnt(base as int, pi.x as int) == pi.x + 1);
        }
        Ok(())
    }

    /// Executes one decoded instruction: mutates the machine exactly as
    /// the transition relation [`step_spec`] describes, returning the
    /// fatal condition on the inputs on which that relation names one and
    /// `Ok` on all others.
    pub fn execute_instruction(&mut self, pi: ParsedInstruction) -> (r: Result<(), EmuError>)
        requires
            old(self).wf(),
            pi.wf(),
            pc_preconditions(pi, old(self).program_counter),
        ensures
            final(self).wf(),
            step_spec(old(self)@, pi, final(self)@, r),
    {
        match pi.instruction {
            Instruction::Clear => {
                self.display.clear();
                Ok(())
            },
            Instruction::PopStack => {
                match self.stack.pop() {
                    Some(addr) => {
                        self.program_counter = addr;
                        Ok(())
                    },
                    None => Err(EmuError::StackUnderflow),
                }
            },
            Instruction::SetProgramCounter => {
                self.program_counter = pi.nnn;
                Ok(())
            },
            Instruction::PushStackSetProgramCounter => {
                if self.stack.len() >= 16 {
                    Err(EmuError::StackOverflow)
                } else {
                    self.stack.push(self.program_counter);
                    self.program_counter = pi.nnn;
                    Ok(())
                }
            },
            Instruction::SkipIfEqualImmediate => {
                if self.registers[pi.x] == pi.nn {
                    self.program_counter = self.program_counter + 2;
                }
                Ok(())
            },
            Instruction::SkipIfNotEqualImmediate => {
                if self.registers[pi.x] != pi.nn {
                    self.program_counter = self.program_counter + 2;
                }
                Ok(())
            },
            Instruction::SkipIfEqualRegister => {
                if self.registers[pi.x] == self.registers[pi.y] {
                    self.program_counter = self.program_counter + 2;
                }
                Ok(())
            },
            Instruction::SkipIfNotEqualRegister => {
                if self.registers[pi.x] != self.registers[pi.y] {
                    self.program_counter = self.program_counter + 2;
                }
                Ok(())
            },
            Instruction::SetRegister => {
                self.registers[pi.x] = pi.nn;
                Ok(())
            },
            Instruction::AddToRegister => {
                let sum: u16 = self.registers[pi.x] as u16 + pi.nn as u16;
                self.registers[pi.x] = (sum % 256) as u8;
                Ok(())
            },
            Instruction::CopyFromRegisterToRegister => {
                self.registers[pi.x] = self.registers[pi.y];
                Ok(())
            },
            Instruction::LogicalOr => {
                self.registers[pi.x] = self.registers[pi.x] | self.registers[pi.y];
                Ok(())
            },
            Instruction::LogicalAnd => {
                self.registers[pi.x] = self.registers[pi.x] & self.registers[pi.y];
                Ok(())
            },
            Instruction::LogicalXor => {
                self.registers[pi.x] = self.registers[pi.x] ^ self.registers[pi.y];
                Ok(())
            },
            Instruction::Addition => {
                let a = self.registers[pi.x];
                let b = self.registers[pi.y];
                let sum: u16 = a as u16 + b as u16;
                self.registers[pi.x] = (sum % 256) as u8;
                self.registers[15] = if sum > 255 {
                    1
                } else {
                    0
                };
                Ok(())
            },
            Instruction::Subtraction => {
                let a = self.registers[pi.x];
                let b = self.registers[pi.y];
                let diff: u16 = (a as u16 + 256) - b as u16;
                self.registers[pi.x] = (diff % 256) as u8;
                self.registers[15] = if a >= b {
                    1
                } else {
                    0
                };
                Ok(())
            },
            Instruction::RightShift => {
                let a = self.registers[pi.x];
                self.registers[pi.x] = a / 2;
                self.registers[15] = a % 2;
                Ok(())
            },
            Instruction::FlippedSubtraction => {
                let a = self.registers[pi.x];
                let b = self.registers[pi.y];
                let diff: u16 = (b as u16 + 256) - a as u16;
                self.registers[pi.x] = (diff % 256) as u8;
                self.registers[15] = if b >= a {
                    1
                } else {
                    0
                };
                Ok(())
            },
            Instruction::LeftShift => {
                let a = self.registers[pi.x];
                let doubled: u16 = a as u16 * 2;
                self.registers[pi.x] = (doubled % 256) as u8;
                self.registers[15] = a / 128;
                Ok(())
            },
            Instruction::SetIndexRegister => {
                self.index_register = pi.nnn;
                Ok(())
            },
            Instruction::SetProgramCounterOffset => {
                self.program_counter = pi.nnn + self.registers[0] as u16;
                Ok(())
            },
            Instruction::RandomNumber => {
                let b = random_byte();
                self.apply_random(pi.x, pi.nn, b);
                proof {
                    assert(self@ == (State {
                        regs: old(self)@.regs.update(pi.x as int, b & pi.nn),
                        ..old(self)@
                    }));
                }
                Ok(())
            },
            Instruction::Draw => self.execute_draw_instruction(&pi),
            Instruction::KeyDown => {
                let k = self.registers[pi.x];
                if self.controller.is_key_pressed(k) {
                    self.program_counter = self.program_counter + 2;
                }
                Ok(())
            },
            Instruction::KeyNotDown => {
                let k = self.registers[pi.x];
                if !self.controller.is_key_pressed(k) {
                    self.program_counter = self.program_counter + 2;
                }
                Ok(())
            },
            Instruction::CopyDelayTimer => {
                self.registers[pi.x] = self.delay_timer;
                Ok(())
            },
            Instruction::SetDelayTimer => {
                self.delay_timer = self.registers[pi.x];
                Ok(())
            },
            Instruction::SetSoundTimer => {
                self.sound_timer = self.registers[pi.x];
                Ok(())
            },
            Instruction::AddToIndexRegister => {
                let sum: u32 = self.index_register as u32 + self.registers[pi.x] as u32;
                if sum > 0xFFF {
                    self.registers[15] = 1;
                }
                self.index_register = (sum % 0x1000) as u16;
                Ok(())
            },
            Instruction::WaitForKeyPress => {
                match self.controller.last_pressed {
                    Some(k) => {
                        self.registers[pi.x] = k;
                    },
                    None => {
                        self.program_counter = self.program_counter - 2;
                    },
                }
                Ok(())
            },
            Instruction::SetIndexRegisterToFontCharacter => {
                let v = self.registers[pi.x];
                let low = v & 0x0F;
                proof {
                    assert((v & 0x0F) < 16) by (bit_vector);
                }
                self.index_register = FONT_OFFSET + low as u16;
                Ok(())
            },
            Instruction::ConvertToDecimal => {
                let base = self.index_register as usize;
                if base + 2 > 4095 {
                    return Err(EmuError::MemoryFault);
                }
                let v = self.registers[pi.x];
                self.memory[base] = v / 100;
                self.memory[base + 1] = (v / 10) % 10;
                self.memory[base + 2] = v % 10;
                Ok(())
            },
            Instruction::WriteToMemory => self.execute_write_to_memory(&pi),
            Instruction::ReadFromMemory => self.execute_read_from_memory(&pi),
        }
    }

    /// One whole cycle: fetches the word at the program counter, advances
    /// the program counter past it, decodes, and executes, exactly as the
    /// relation [`cycle_spec`] describes.
    pub fn perform_fde_cycle(&mut self) -> (r: Result<(), EmuError>)
        requires
            old(self).wf(),
        ensures
            final(self).wf(),
            cycle_spec(old(self)@, final(self)@, r),
    {
        let pc = self.program_counter as usize;
        if pc + 1 >= 4096 {
            return Err(EmuError::MemoryFault);
        }
        let msb = (self.memory[pc] as u16) << 8;
        let lsb = self.memory[pc + 1] as u16;
        let raw = msb | lsb;
        let pi = match ParsedInstruction::parse(raw) {
            Ok(pi) => pi,
            Err(e) => {
                return Err(e);
            },
        };
        self.program_counter = self.program_counter + 2;
        self.execute_instruction(pi)
    }
}

/// Extending the scanned prefix of the pixel grid by one cell extends the
/// any-toggle and collision conditions by exactly that cell.
proof fn lemma_upto_step(pixels: Seq<bool>, rows: Seq<u8>, x0: int, y0: int, i: int)
    requires
        0 <= i,
    ensures
        draw_hits_upto(pixels, rows, x0, y0, i + 1) == (draw_hits_upto(pixels, rows, x0, y0, i)
            || sprite_covers(rows, x0, y0, i % 64, i / 64)),
        draw_collides_upto(pixels, rows, x0, y0, i + 1) == (draw_collides_upto(
            pixels,
            rows,
            x0,
            y0,
            i,
        ) || (sprite_covers(rows, x0, y0, i % 64, i / 64) && pixels[i])),
{
    if draw_hits_upto(pixels, rows, x0, y0, i + 1) {
        let j = choose|j: int| 0 <= j < i + 1 && #[trigger] sprite_covers(rows, x0, y0, j % 64, j / 64);
        if j < i {
            assert(draw_hits_upto(pixels, rows, x0, y0, i));
        }
    }
    if draw_hits_upto(pixels, rows, x0, y0, i) {
        let j = choose|j: int| 0 <= j < i && #[trigger] sprite_covers(rows, x0, y0, j % 64, j / 64);
        assert(0 <= j < i + 1 && sprite_covers(rows, x0, y0, j % 64, j / 64));
    }
    if sprite_covers(rows, x0, y0, i % 64, i / 64) {
        assert(draw_hits_upto(pixels, rows, x0, y0, i + 1));
    }
    if draw_collides_upto(pixels, rows, x0, y0, i + 1) {
        let j = choose|j: int|
            0 <= j < i + 1 && #[trigger] sprite_covers(rows, x0, y0, j % 64, j / 64) && pixels[j];
        if j < i {
            assert(draw_collides_upto(pixels, rows, x0, y0, i));
        }
    }
    if draw_collides_upto(pixels, rows, x0, y0, i) {
        let j = choose|j: int|
            0 <= j < i && #[trigger] sprite_covers(rows, x0, y0, j % 64, j / 64) && pixels[j];
        assert(0 <= j < i + 1 && sprite_covers(rows, x0, y0, j % 64, j / 64) && pixels[j]);
    }
    if sprite_covers(rows, x0, y0, i % 64, i / 64) && pixels[i] {
        assert(draw_collides_upto(pixels, rows, x0, y0, i + 1));
    }
}

/// For the arithmetic and shift instructions, VF after an `Ok` step is
/// exactly the documented overflow / borrow / shift-out convention, and
/// when VF is not itself the destination the result register holds the
/// wrapped arithmetic result.
pub proof fn lemma_arithmetic_flags(
    pre: State,
    pi: ParsedInstruction,
    post: State,
    x: int,
    y: int,
)
    requires
        wf_state(pre),
        pi.wf(),
        x == pi.x as int,
        y == pi.y as int,
        step_spec(pre, pi, post, Ok(())),
    ensures
        pi.instruction == Instruction::Addition ==> {
            &&& post.regs[15] == (if pre.regs[x] + pre.regs[y] > 255 { 1u8 } else { 0u8 })
            &&& x != 15 ==> post.regs[x] == ((pre.regs[x] + pre.regs[y]) % 256) as u8
        },
        pi.instruction == Instruction::Subtraction ==> {
            &&& post.regs[15] == (if pre.regs[x] >= pre.regs[y] { 1u8 } else { 0u8 })
            &&& x != 15 ==> post.regs[x] == ((pre.regs[x] - pre.regs[y] + 256) % 256) as u8
        },
        pi.instruction == Instruction::FlippedSubtraction ==> {
            &&& post.regs[15] == (if pre.regs[y] >= pre.regs[x] { 1u8 } else { 0u8 })
            &&& x != 15 ==> post.regs[x] == ((pre.regs[y] - pre.regs[x] + 256) % 256) as u8
        },
        pi.instruction == Instruction::RightShift ==> {
            &&& post.regs[15] == (pre.regs[x] % 2) as u8
            &&& x != 15 ==> post.regs[x] == (pre.regs[x] / 2) as u8
        },
        pi.instruction == Instruction::LeftShift ==> {
            &&& post.regs[15] == (pre.regs[x] / 128) as u8
            &&& x != 15 ==> post.regs[x] == ((pre.regs[x] * 2) % 256) as u8
        },
        pi.instruction == Instruction::AddToRegister ==> post.regs[x] == ((pre.regs[x] + pi.nn)
            % 256) as u8,
{
}

/// Blitting the identical sprite at the identical position twice restores
/// every pixel: the XOR blit is its own inverse.
pub proof fn lemma_draw_twice(pixels: Seq<bool>, rows: Seq<u8>, x0: int, y0: int)
    ensures
        draw_pixels(draw_pixels(pixels, rows, x0, y0), rows, x0, y0) == pixels,
{
    let once = draw_pixels(pixels, rows, x0, y0);
    let twice = draw_pixels(once, rows, x0, y0);
    assert forall|idx: int| 0 <= idx < pixels.len() implies twice[idx] == pixels[idx] by {
        assert(once[idx] == (pixels[idx] != sprite_covers(rows, x0, y0, idx % 64, idx / 64)));
    }
    assert(twice =~= pixels);
}

/// After an `Ok` draw step, VF is 1 exactly when some already-set pixel
/// was toggled, and 0 otherwise; pixels toggle exactly where the sprite
/// covers them.
pub proof fn lemma_draw_collision_flag(pre: State, pi: ParsedInstruction, post: State)
    requires
        wf_state(pre),
        pi.wf(),
        pi.instruction == Instruction::Draw,
        step_spec(pre, pi, post, Ok(())),
    ensures
        post.regs[15] == 1u8 || post.regs[15] == 0u8,
        (post.regs[15] == 1u8) <==> (exists|idx: int|
            0 <= idx < 2048 && pre.pixels[idx] && post.pixels[idx] != pre.pixels[idx]),
{
    let start = pre.index as int;
    let count = pi.n as int;
    let x0 = pre.regs[pi.x as int] % 64;
    let y0 = pre.regs[pi.y as int] % 32;
    let rows = pre.memory.subrange(start, start + count);
    assert(post.pixels == draw_pixels(pre.pixels, rows, x0 as int, y0 as int));
    if post.regs[15] == 1u8 {
        let j = choose|j: int|
            0 <= j < 2048 && #[trigger] sprite_covers(rows, x0 as int, y0 as int, j % 64, j / 64)
                && pre.pixels[j];
        assert(post.pixels[j] != pre.pixels[j]);
    }
    if exists|idx: int| 0 <= idx < 2048 && pre.pixels[idx] && post.pixels[idx] != pre.pixels[idx] {
        let j = choose|idx: int|
            0 <= idx < 2048 && pre.pixels[idx] && post.pixels[idx] != pre.pixels[idx];
        assert(sprite_covers(rows, x0 as int, y0 as int, j % 64, j / 64));
        assert(draw_collides_upto(pre.pixels, rows, x0 as int, y0 as int, 2048));
    }
}

/// The blit clips at the screen edges without wraparound: a pixel that
/// changes lies inside the sprite's rectangle, within the grid.  In
/// particular a sprite starting at column 60 only affects columns 60..63.
pub proof fn lemma_draw_clips(pixels: Seq<bool>, rows: Seq<u8>, x0: int, y0: int, idx: int)
    requires
        0 <= idx < pixels.len(),
        draw_pixels(pixels, rows, x0, y0)[idx] != pixels[idx],
    ensures
        x0 <= idx % 64 < x0 + 8,
        y0 <= idx / 64 < y0 + rows.len(),
{
}

/// Across one whole cycle, wait-for-key with no key held leaves the
/// machine exactly as it was (the fetch advance and the instruction's
/// step back cancel), and with a held key advances the program counter
/// once and writes the key into V[x].
pub proof fn lemma_wait_for_key_cycle(pre: State, post: State, r: Result<(), EmuError>)
    requires
        wf_state(pre),
        pre.pc + 1 < 4096,
        spec_decode(fetch_word(pre.memory, pre.pc as int)) == Some(Instruction::WaitForKeyPress),
        cycle_spec(pre, post, r),
    ensures
        r is Ok,
        pre.last_key is None ==> post == pre,
        pre.last_key matches Some(k) ==> post == (State {
            pc: (pre.pc + 2) as u16,
            regs: pre.regs.update(
                crate::decoder::spec_x(fetch_word(pre.memory, pre.pc as int)) as int,
                k,
            ),
            ..pre
        }),
{
    let w = fetch_word(pre.memory, pre.pc as int);
    let advanced = State { pc: (pre.pc + 2) as u16, ..pre };
    let pi = ParsedInstruction::spec_of(w, Instruction::WaitForKeyPress);
    assert(step_spec(advanced, pi, post, r));
    if pre.last_key is None {
        assert(post == (State { pc: (advanced.pc - 2) as u16, ..advanced }));
        assert(post =~= pre);
    }
}

/// An `Ok` call step followed by an `Ok` return step restores the program
/// counter and the call stack: at execution time the program counter
/// already points at the instruction after the call, the call pushes that
/// address, and the return pops it back.
pub proof fn lemma_call_return_round_trip(
    s1: State,
    pi_call: ParsedInstruction,
    s2: State,
    pi_ret: ParsedInstruction,
    s3: State,
)
    requires
        pi_call.instruction == Instruction::PushStackSetProgramCounter,
        pi_ret.instruction == Instruction::PopStack,
        step_spec(s1, pi_call, s2, Ok(())),
        step_spec(s2, pi_ret, s3, Ok(())),
    ensures
        s3.pc == s1.pc,
        s3.stack == s1.stack,
{
    assert(s2.stack == s1.stack.push(s1.pc));
    assert(s2.stack.last() == s1.pc);
    assert(s2.stack.drop_last() =~= s1.stack);
}

/// A call with the stack at capacity fails with exactly the overflow
/// condition, a return with an empty stack with exactly the underflow
/// condition, and either failure leaves the machine unchanged, so no
/// further effect of the instruction takes place.
pub proof fn lemma_stack_capacity_faults(
    pre: State,
    pi: ParsedInstruction,
    post: State,
    r: Result<(), EmuError>,
)
    requires
        step_spec(pre, pi, post, r),
    ensures
        pi.instruction == Instruction::PushStackSetProgramCounter ==> ((r == Err::<(
            ),
            EmuError,
        >(EmuError::StackOverflow)) <==> pre.stack.len() >= 16),
        pi.instruction == Instruction::PopStack ==> ((r == Err::<(), EmuError>(
            EmuError::StackUnderflow,
        )) <==> pre.stack.len() == 0),
        (pi.instruction == Instruction::PushStackSetProgramCounter || pi.instruction
            == Instruction::PopStack) && r is Err ==> post == pre,
{
}

/// The block store and load touch exactly the cells of the block: after
/// an `Ok` block store, memory holds V0..Vx at I..I+x and every other
/// address is unchanged; after an `Ok` block load, V0..Vx hold the bytes
/// at I..I+x and every higher register is unchanged.  With x = 0 the
/// block is the single cell at I.
pub proof fn lemma_block_bounds(pre: State, pi: ParsedInstruction, post: State)
    requires
        wf_state(pre),
        pi.wf(),
        step_spec(pre, pi, post, Ok(())),
    ensures
        pi.instruction == Instruction::WriteToMemory ==> {
            &&& forall|j: int|
                0 <= j <= pi.x ==> post.memory[pre.index + j] == pre.regs[j]
            &&& forall|a: int|
                0 <= a < 4096 && !(pre.index <= a <= pre.index + pi.x) ==> post.memory[a]
                    == pre.memory[a]
            &&& post.regs == pre.regs
        },
        pi.instruction == Instruction::ReadFromMemory ==> {
            &&& forall|j: int|
                0 <= j <= pi.x ==> post.regs[j] == pre.memory[pre.index + j]
            &&& forall|j: int| pi.x < j < 16 ==> post.regs[j] == pre.regs[j]
            &&& post.memory == pre.memory
        },
{
}

/// Relies on `rand::Rng::gen::<u8>` on `rand::thread_rng()` for a random
/// byte, uniformly distributed; nothing is promised of any single outcome.
#[verifier::external_body]
fn random_byte() -> (b: u8) {
    rand::thread_rng().gen::<u8>()
}


} // verus!
