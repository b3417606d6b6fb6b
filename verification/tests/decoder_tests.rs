use chip8::decoder::{Instruction, ParsedInstruction};
use chip8::error::EmuError;

#[test]
fn decode_is_deterministic() {
    for &w in &[0x00E0u16, 0x00EE, 0x1234, 0x8AB4, 0xF065, 0xD01F] {
        let a = ParsedInstruction::parse(w).unwrap();
        let b = ParsedInstruction::parse(w).unwrap();
        assert_eq!(a, b);
    }
}

#[test]
fn decode_operand_fields() {
    let pi = ParsedInstruction::parse(0xD7A5).unwrap();
    assert_eq!(pi.raw_instruction, 0xD7A5);
    assert_eq!(pi.x, 0x7);
    assert_eq!(pi.y, 0xA);
    assert_eq!(pi.n, 0x5);
    assert_eq!(pi.nn, 0xA5);
    assert_eq!(pi.nnn, 0x7A5);
}

#[test]
fn decode_full_word_opcodes() {
    assert_eq!(ParsedInstruction::parse(0x00E0).unwrap().instruction, Instruction::Clear);
    assert_eq!(ParsedInstruction::parse(0x00EE).unwrap().instruction, Instruction::PopStack);
}

#[test]
fn decode_top_nibble_shapes() {
    let cases: [(u16, Instruction); 11] = [
        (0x1ABC, Instruction::SetProgramCounter),
        (0x2ABC, Instruction::PushStackSetProgramCounter),
        (0x3A42, Instruction::SkipIfEqualImmediate),
        (0x4A42, Instruction::SkipIfNotEqualImmediate),
        (0x5AB0, Instruction::SkipIfEqualRegister),
        (0x6A05, Instruction::SetRegister),
        (0x7A05, Instruction::AddToRegister),
        (0x9AB0, Instruction::SkipIfNotEqualRegister),
        (0xA2F0, Instruction::SetIndexRegister),
        (0xB123, Instruction::SetProgramCounterOffset),
        (0xC0FF, Instruction::RandomNumber),
    ];
    for &(w, ins) in &cases {
        assert_eq!(ParsedInstruction::parse(w).unwrap().instruction, ins);
    }
    assert_eq!(ParsedInstruction::parse(0xD015).unwrap().instruction, Instruction::Draw);
}

#[test]
fn decode_alu_group() {
    let cases: [(u16, Instruction); 9] = [
        (0x8AB0, Instruction::CopyFromRegisterToRegister),
        (0x8AB1, Instruction::LogicalOr),
        (0x8AB2, Instruction::LogicalAnd),
        (0x8AB3, Instruction::LogicalXor),
        (0x8AB4, Instruction::Addition),
        (0x8AB5, Instruction::Subtraction),
        (0x8AB6, Instruction::RightShift),
        (0x8AB7, Instruction::FlippedSubtraction),
        (0x8ABE, Instruction::LeftShift),
    ];
    for &(w, ins) in &cases {
        assert_eq!(ParsedInstruction::parse(w).unwrap().instruction, ins);
    }
}

#[test]
fn decode_key_and_misc_groups() {
    let cases: [(u16, Instruction); 11] = [
        (0xE09E, Instruction::KeyDown),
        (0xE0A1, Instruction::KeyNotDown),
        (0xF007, Instruction::CopyDelayTimer),
        (0xF00A, Instruction::WaitForKeyPress),
        (0xF015, Instruction::SetDelayTimer),
        (0xF018, Instruction::SetSoundTimer),
        (0xF01E, Instruction::AddToIndexRegister),
        (0xF029, Instruction::SetIndexRegisterToFontCharacter),
        (0xF033, Instruction::ConvertToDecimal),
        (0xF055, Instruction::WriteToMemory),
        (0xF065, Instruction::ReadFromMemory),
    ];
    for &(w, ins) in &cases {
        assert_eq!(ParsedInstruction::parse(w).unwrap().instruction, ins);
    }
}

#[test]
fn decode_rejects_unknown_shapes() {
    for &w in &[0x0000u16, 0x0123, 0x00EF, 0x8AB8, 0x8ABF, 0xE000, 0xE0A2, 0xF000, 0xF056, 0xFFFF]
    {
        assert_eq!(ParsedInstruction::parse(w), Err(EmuError::InvalidOpcode(w)));
    }
}
