//! Decoding of raw 16-bit instruction words into tagged instructions with
//! their operand fields.  Decoding is a pure function of the word: the same
//! word always yields the same tagged instruction, and a word that matches
//! no documented shape is rejected as an invalid opcode.

use crate::error::EmuError;
use vstd::prelude::*;

verus! {

/// The closed set of operations the machine understands.
#[derive(Clone, Copy, Debug, PartialEq, Eq, Structural)]
pub enum Instruction {
    Clear,
    PopStack,
    SetProgramCounter,
    PushStackSetProgramCounter,
    SkipIfEqualImmediate,
    SkipIfNotEqualImmediate,
    SkipIfEqualRegister,
    SkipIfNotEqualRegister,
    SetRegister,
    AddToRegister,
    CopyFromRegisterToRegister,
    LogicalOr,
    LogicalAnd,
    LogicalXor,
    Addition,
    Subtraction,
    RightShift,
    FlippedSubtraction,
    LeftShift,
    SetIndexRegister,
    SetProgramCounterOffset,
    RandomNumber,
    Draw,
    KeyDown,
    KeyNotDown,
    CopyDelayTimer,
    SetDelayTimer,
    SetSoundTimer,
    AddToIndexRegister,
    WaitForKeyPress,
    SetIndexRegisterToFontCharacter,
    ConvertToDecimal,
    WriteToMemory,
    ReadFromMemory,
}

/// The `x` operand: bits 8..11 of the word, naming a register.
pub open spec fn spec_x(w: u16) -> usize {
    ((w >> 8) & 0xF) as usize
}

/// The `y` operand: bits 4..7 of the word, naming a register.
pub open spec fn spec_y(w: u16) -> usize {
    ((w >> 4) & 0xF) as usize
}

/// The `n` operand: bits 0..3 of the word.
pub open spec fn spec_n(w: u16) -> u8 {
    (w & 0xF) as u8
}

/// The `nn` operand: bits 0..7 of the word.
pub open spec fn spec_nn(w: u16) -> u8 {
    (w & 0xFF) as u8
}

/// The `nnn` operand: bits 0..11 of the word.
pub open spec fn spec_nnn(w: u16) -> u16 {
    w & 0xFFF
}

/// Classifies a raw word.  The two full-word opcodes come first, then the
/// top nibble, and for the arithmetic/logical group and the two
/// input-dependent groups a secondary dispatch on `n` or `nn`.  `None`
/// means the word matches no documented shape.
pub open spec fn spec_decode(w: u16) -> Option<Instruction> {
    if w == 0x00E0 {
        Some(Instruction::Clear)
    } else if w == 0x00EE {
        Some(Instruction::PopStack)
    } else {
        let op = (w >> 12) & 0xF;
        if op == 0x1 {
            Some(Instruction::SetProgramCounter)
        } else if op == 0x2 {
            Some(Instruction::PushStackSetProgramCounter)
        } else if op == 0x3 {
            Some(Instruction::SkipIfEqualImmediate)
        } else if op == 0x4 {
            Some(Instruction::SkipIfNotEqualImmediate)
        } else if op == 0x5 {
            Some(Instruction::SkipIfEqualRegister)
        } else if op == 0x6 {
            Some(Instruction::SetRegister)
        } else if op == 0x7 {
            Some(Instruction::AddToRegister)
        } else if op == 0x8 {
            spec_decode_alu(spec_n(w))
        } else if op == 0x9 {
            Some(Instruction::SkipIfNotEqualRegister)
        } else if op == 0xA {
            Some(Instruction::SetIndexRegister)
        } else if op == 0xB {
            Some(Instruction::SetProgramCounterOffset)
        } else if op == 0xC {
            Some(Instruction::RandomNumber)
        } else if op == 0xD {
            Some(Instruction::Draw)
        } else if op == 0xE {
            spec_decode_key(spec_nn(w))
        } else if op == 0xF {
            spec_decode_misc(spec_nn(w))
        } else {
            None
        }
    }
}

/// Secondary dispatch for the register-to-register arithmetic/logical
/// group, keyed on the low nibble.
pub open spec fn spec_decode_alu(n: u8) -> Option<Instruction> {
    if n == 0x0 {
        Some(Instruction::CopyFromRegisterToRegister)
    } else if n == 0x1 {
        Some(Instruction::LogicalOr)
    } else if n == 0x2 {
        Some(Instruction::LogicalAnd)
    } else if n == 0x3 {
        Some(Instruction::LogicalXor)
    } else if n == 0x4 {
        Some(Instruction::Addition)
    } else if n == 0x5 {
        Some(Instruction::Subtraction)
    } else if n == 0x6 {
        Some(Instruction::RightShift)
    } else if n == 0x7 {
        Some(Instruction::FlippedSubtraction)
    } else if n == 0xE {
        Some(Instruction::LeftShift)
    } else {
        None
    }
}

/// Secondary dispatch for the two key-state skips, keyed on the low byte.
pub open spec fn spec_decode_key(nn: u8) -> Option<Instruction> {
    if nn == 0x9E {
        Some(Instruction::KeyDown)
    } else if nn == 0xA1 {
        Some(Instruction::KeyNotDown)
    } else {
        None
    }
}

/// Secondary dispatch for the timer, index, and memory group, keyed on the
/// low byte.
pub open spec fn spec_decode_misc(nn: u8) -> Option<Instruction> {
    if nn == 0x07 {
        Some(Instruction::CopyDelayTimer)
    } else if nn == 0x0A {
        Some(Instruction::WaitForKeyPress)
    } else if nn == 0x15 {
        Some(Instruction::SetDelayTimer)
    } else if nn == 0x18 {
        Some(Instruction::SetSoundTimer)
    } else if nn == 0x1E {
        Some(Instruction::AddToIndexRegister)
    } else if nn == 0x29 {
        Some(Instruction::SetIndexRegisterToFontCharacter)
    } else if nn == 0x33 {
        Some(Instruction::ConvertToDecimal)
    } else if nn == 0x55 {
        Some(Instruction::WriteToMemory)
    } else if nn == 0x65 {
        Some(Instruction::ReadFromMemory)
    } else {
        None
    }
}

/// Decoding is deterministic: two decoded instructions that both come
/// from the same raw word are identical in tag and in every operand
/// field.
pub proof fn lemma_decode_deterministic(w: u16, pi1: ParsedInstruction, pi2: ParsedInstruction)
    requires
        spec_decode(w) == Some(pi1.instruction),
        pi1 == ParsedInstruction::spec_of(w, pi1.instruction),
        spec_decode(w) == Some(pi2.instruction),
        pi2 == ParsedInstruction::spec_of(w, pi2.instruction),
    ensures
        pi1 == pi2,
{
}

/// Every documented opcode shape decodes to its named instruction and no
/// other: the two full-word opcodes, each top-nibble shape, and the
/// secondary dispatches; a word that matches none of them decodes to
/// nothing.
pub proof fn lemma_decode_shapes(w: u16)
    ensures
        w == 0x00E0 ==> spec_decode(w) == Some(Instruction::Clear),
        w == 0x00EE ==> spec_decode(w) == Some(Instruction::PopStack),
        (w >> 12) == 0x1 ==> spec_decode(w) == Some(Instruction::SetProgramCounter),
        (w >> 12) == 0x2 ==> spec_decode(w) == Some(Instruction::PushStackSetProgramCounter),
        (w >> 12) == 0x3 ==> spec_decode(w) == Some(Instruction::SkipIfEqualImmediate),
        (w >> 12) == 0x4 ==> spec_decode(w) == Some(Instruction::SkipIfNotEqualImmediate),
        (w >> 12) == 0x5 ==> spec_decode(w) == Some(Instruction::SkipIfEqualRegister),
        (w >> 12) == 0x6 ==> spec_decode(w) == Some(Instruction::SetRegister),
        (w >> 12) == 0x7 ==> spec_decode(w) == Some(Instruction::AddToRegister),
        (w >> 12) == 0x8 ==> spec_decode(w) == spec_decode_alu(spec_n(w)),
        (w >> 12) == 0x9 ==> spec_decode(w) == Some(Instruction::SkipIfNotEqualRegister),
        (w >> 12) == 0xA ==> spec_decode(w) == Some(Instruction::SetIndexRegister),
        (w >> 12) == 0xB ==> spec_decode(w) == Some(Instruction::SetProgramCounterOffset),
        (w >> 12) == 0xC ==> spec_decode(w) == Some(Instruction::RandomNumber),
        (w >> 12) == 0xD ==> spec_decode(w) == Some(Instruction::Draw),
        (w >> 12) == 0xE ==> spec_decode(w) == spec_decode_key(spec_nn(w)),
        (w >> 12) == 0xF ==> spec_decode(w) == spec_decode_misc(spec_nn(w)),
        (w >> 12) == 0x0 && w != 0x00E0 && w != 0x00EE ==> spec_decode(w) is None,
{
    assert((w >> 12) == ((w >> 12) & 0xF) && (w >> 12) <= 0xF && ((w >> 12) >= 1 ==> w > 0x00EE))
        by (bit_vector);
}

/// A decoded instruction: the raw word, its tag, and every operand field.
#[derive(Clone, Copy, Debug, PartialEq, Eq, Structural)]
pub struct ParsedInstruction {
    pub raw_instruction: u16,
    pub instruction: Instruction,
    pub x: usize,
    pub y: usize,
    pub n: u8,
    pub nn: u8,
    pub nnn: u16,
}

impl ParsedInstruction {
    /// The decoded form of a word that matches a documented shape.
    pub open spec fn spec_of(w: u16, ins: Instruction) -> ParsedInstruction {
        ParsedInstruction {
            raw_instruction: w,
            instruction: ins,
            x: spec_x(w),
            y: spec_y(w),
            n: spec_n(w),
            nn: spec_nn(w),
            nnn: spec_nnn(w),
        }
    }

    /// The operand fields lie within their nibble-derived ranges.
    pub open spec fn wf(self) -> bool {
        &&& self.x < 16
        &&& self.y < 16
        &&& self.n < 16
        &&& self.nnn <= 0xFFF
    }

    /// Decodes a raw 16-bit word.  Total and deterministic: the result is a
    /// pure function of the word, and every word either decodes to exactly
    /// one tagged instruction or is rejected as an invalid opcode.
    pub fn parse(raw_instruction: u16) -> (r: Result<ParsedInstruction, EmuError>)
        ensures
            match r {
                Ok(pi) => {
                    &&& spec_decode(raw_instruction) == Some(pi.instruction)
                    &&& pi == ParsedInstruction::spec_of(raw_instruction, pi.instruction)
                    &&& pi.wf()
                },
                Err(e) => {
                    &&& spec_decode(raw_instruction) is None
                    &&& e == EmuError::InvalidOpcode(raw_instruction)
                },
            },
    {
        let w = raw_instruction;
        let op: u16 = (w >> 12) & 0xF;
        let n: u8 = (w & 0xF) as u8;
        let nn: u8 = (w & 0xFF) as u8;
        let decoded: Option<Instruction> = if w == 0x00E0 {
            Some(Instruction::Clear)
        } else if w == 0x00EE {
            Some(Instruction::PopStack)
        } else if op == 0x1 {
            Some(Instruction::SetProgramCounter)
        } else if op == 0x2 {
            Some(Instruction::PushStackSetProgramCounter)
        } else if op == 0x3 {
            Some(Instruction::SkipIfEqualImmediate)
        } else if op == 0x4 {
            Some(Instruction::SkipIfNotEqualImmediate)
        } else if op == 0x5 {
            Some(Instruction::SkipIfEqualRegister)
        } else if op == 0x6 {
            Some(Instruction::SetRegister)
        } else if op == 0x7 {
            Some(Instruction::AddToRegister)
        } else if op == 0x8 {
            if n == 0x0 {
                Some(Instruction::CopyFromRegisterToRegister)
            } else if n == 0x1 {
                Some(Instruction::LogicalOr)
            } else if n == 0x2 {
                Some(Instruction::LogicalAnd)
            } else if n == 0x3 {
                Some(Instruction::LogicalXor)
            } else if n == 0x4 {
                Some(Instruction::Addition)
            } else if n == 0x5 {
                Some(Instruction::Subtraction)
            } else if n == 0x6 {
                Some(Instruction::RightShift)
            } else if n == 0x7 {
                Some(Instruction::FlippedSubtraction)
            } else if n == 0xE {
                Some(Instruction::LeftShift)
            } else {
                None
            }
        } else if op == 0x9 {
            Some(Instruction::SkipIfNotEqualRegister)
        } else if op == 0xA {
            Some(Instruction::SetIndexRegister)
        } else if op == 0xB {
            Some(Instruction::SetProgramCounterOffset)
        } else if op == 0xC {
            Some(Instruction::RandomNumber)
        } else if op == 0xD {
            Some(Instruction::Draw)
        } else if op == 0xE {
            if nn == 0x9E {
                Some(Instruction::KeyDown)
            } else if nn == 0xA1 {
                Some(Instruction::KeyNotDown)
            } else {
                None
            }
        } else if op == 0xF {
            if nn == 0x07 {
                Some(Instruction::CopyDelayTimer)
            } else if nn == 0x0A {
                Some(Instruction::WaitForKeyPress)
            } else if nn == 0x15 {
                Some(Instruction::SetDelayTimer)
            } else if nn == 0x18 {
                Some(Instruction::SetSoundTimer)
            } else if nn == 0x1E {
                Some(Instruction::AddToIndexRegister)
            } else if nn == 0x29 {
                Some(Instruction::SetIndexRegisterToFontCharacter)
            } else if nn == 0x33 {
                Some(Instruction::ConvertToDecimal)
            } else if nn == 0x55 {
                Some(Instruction::WriteToMemory)
            } else if nn == 0x65 {
                Some(Instruction::ReadFromMemory)
            } else {
                None
            }
        } else {
            None
        };
        proof {
            assert(((w >> 12) & 0xF) <= 0xF && ((w >> 8) & 0xF) < 16 && ((w >> 4) & 0xF) < 16
                && (w & 0xF) < 16 && (w & 0xFF) < 256 && (w & 0xFFF) <= 0xFFF) by (bit_vector);
        }
        match decoded {
            Some(instruction) => Ok(ParsedInstruction {
                raw_instruction: w,
                instruction,
                x: ((w >> 8) & 0xF) as usize,
                y: ((w >> 4) & 0xF) as usize,
                n,
                nn,
                nnn: w & 0xFFF,
            }),
            None => Err(EmuError::InvalidOpcode(w)),
        }
    }
}

} // verus!
