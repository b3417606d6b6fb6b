use chip8::decoder::ParsedInstruction;
use chip8::emulator::Emulator;
use chip8::error::EmuError;

fn machine() -> Emulator {
    Emulator::new(Vec::new())
}

fn step(e: &mut Emulator, w: u16) {
    let pi = ParsedInstruction::parse(w).unwrap();
    e.execute_instruction(pi).unwrap();
}

#[test]
fn set_register_exact() {
    let mut e = machine();
    step(&mut e, 0x6A05);
    assert_eq!(e.registers[0xA], 5);
}

#[test]
fn set_index_register_exact() {
    let mut e = machine();
    step(&mut e, 0xA2F0);
    assert_eq!(e.index_register, 0x2F0);
}

#[test]
fn add_immediate_wraps_without_flag() {
    let mut e = machine();
    e.registers[0x0] = 2;
    e.registers[0xF] = 7;
    step(&mut e, 0x70FF);
    assert_eq!(e.registers[0x0], 1);
    assert_eq!(e.registers[0xF], 7);
}

#[test]
fn addition_sets_carry_on_overflow() {
    let mut e = machine();
    e.registers[0x0] = 0xFF;
    e.registers[0x1] = 0x01;
    step(&mut e, 0x8014);
    assert_eq!(e.registers[0x0], 0x00);
    assert_eq!(e.registers[0xF], 1);
}

#[test]
fn addition_clears_carry_without_overflow() {
    let mut e = machine();
    e.registers[0x0] = 1;
    e.registers[0x1] = 2;
    e.registers[0xF] = 1;
    step(&mut e, 0x8014);
    assert_eq!(e.registers[0x0], 3);
    assert_eq!(e.registers[0xF], 0);
}

#[test]
fn subtraction_clears_flag_on_borrow() {
    let mut e = machine();
    e.registers[0x0] = 0x01;
    e.registers[0x1] = 0x02;
    step(&mut e, 0x8015);
    assert_eq!(e.registers[0x0], 0xFF);
    assert_eq!(e.registers[0xF], 0);
}

#[test]
fn subtraction_sets_flag_without_borrow() {
    let mut e = machine();
    e.registers[0x0] = 0x05;
    e.registers[0x1] = 0x02;
    step(&mut e, 0x8015);
    assert_eq!(e.registers[0x0], 0x03);
    assert_eq!(e.registers[0xF], 1);
}

#[test]
fn flipped_subtraction_swaps_operands() {
    let mut e = machine();
    e.registers[0x0] = 0x02;
    e.registers[0x1] = 0x05;
    step(&mut e, 0x8017);
    assert_eq!(e.registers[0x0], 0x03);
    assert_eq!(e.registers[0xF], 1);

    e.registers[0x0] = 0x05;
    e.registers[0x1] = 0x02;
    step(&mut e, 0x8017);
    assert_eq!(e.registers[0x0], 0xFD);
    assert_eq!(e.registers[0xF], 0);
}

#[test]
fn right_shift_moves_low_bit_to_flag() {
    let mut e = machine();
    e.registers[0x0] = 0x05;
    step(&mut e, 0x8016);
    assert_eq!(e.registers[0x0], 0x02);
    assert_eq!(e.registers[0xF], 1);

    e.registers[0x0] = 0x04;
    step(&mut e, 0x8016);
    assert_eq!(e.registers[0x0], 0x02);
    assert_eq!(e.registers[0xF], 0);
}

#[test]
fn left_shift_moves_high_bit_to_flag() {
    let mut e = machine();
    e.registers[0x0] = 0x81;
    step(&mut e, 0x801E);
    assert_eq!(e.registers[0x0], 0x02);
    assert_eq!(e.registers[0xF], 1);

    e.registers[0x0] = 0x41;
    step(&mut e, 0x801E);
    assert_eq!(e.registers[0x0], 0x82);
    assert_eq!(e.registers[0xF], 0);
}

#[test]
fn flag_register_as_destination_keeps_flag_last() {
    let mut e = machine();
    e.registers[0xF] = 0xFF;
    e.registers[0x1] = 0x01;
    step(&mut e, 0x8F14);
    assert_eq!(e.registers[0xF], 1);
}

#[test]
fn copy_or_and_xor() {
    let mut e = machine();
    e.registers[0x0] = 0b1100;
    e.registers[0x1] = 0b1010;
    step(&mut e, 0x8010);
    assert_eq!(e.registers[0x0], 0b1010);

    e.registers[0x0] = 0b1100;
    step(&mut e, 0x8011);
    assert_eq!(e.registers[0x0], 0b1110);

    e.registers[0x0] = 0b1100;
    step(&mut e, 0x8012);
    assert_eq!(e.registers[0x0], 0b1000);

    e.registers[0x0] = 0b1100;
    step(&mut e, 0x8013);
    assert_eq!(e.registers[0x0], 0b0110);
}

#[test]
fn skips_advance_program_counter_by_two() {
    let mut e = machine();
    e.registers[0x0] = 0x42;
    step(&mut e, 0x3042);
    assert_eq!(e.program_counter, 514);
    step(&mut e, 0x3041);
    assert_eq!(e.program_counter, 514);
    step(&mut e, 0x4041);
    assert_eq!(e.program_counter, 516);
    e.registers[0x1] = 0x42;
    step(&mut e, 0x5010);
    assert_eq!(e.program_counter, 518);
    step(&mut e, 0x9010);
    assert_eq!(e.program_counter, 518);
    e.registers[0x1] = 0x43;
    step(&mut e, 0x9010);
    assert_eq!(e.program_counter, 520);
}

#[test]
fn jump_and_jump_with_offset() {
    let mut e = machine();
    step(&mut e, 0x1ABC);
    assert_eq!(e.program_counter, 0xABC);
    e.registers[0x0] = 5;
    step(&mut e, 0xB300);
    assert_eq!(e.program_counter, 0x305);
}

#[test]
fn random_respects_mask() {
    let mut e = machine();
    e.registers[0x0] = 0xAA;
    step(&mut e, 0xC000);
    assert_eq!(e.registers[0x0], 0, "a zero mask forces a zero result");
    for _ in 0..32 {
        step(&mut e, 0xC00F);
        assert_eq!(e.registers[0x0] & 0xF0, 0);
    }
}

#[test]
fn timers_copy_and_tick() {
    let mut e = machine();
    e.registers[0x0] = 3;
    step(&mut e, 0xF015);
    assert_eq!(e.delay_timer, 3);
    e.registers[0x1] = 2;
    step(&mut e, 0xF118);
    assert_eq!(e.sound_timer, 2);
    e.tick_timers();
    assert_eq!(e.delay_timer, 2);
    assert_eq!(e.sound_timer, 1);
    e.tick_timers();
    e.tick_timers();
    e.tick_timers();
    assert_eq!(e.delay_timer, 0, "the delay timer never goes below zero");
    assert_eq!(e.sound_timer, 0, "the sound timer never goes below zero");
    step(&mut e, 0xF207);
    assert_eq!(e.registers[0x2], 0);
}

#[test]
fn add_to_index_masks_and_flags() {
    let mut e = machine();
    e.index_register = 10;
    e.registers[0x0] = 5;
    step(&mut e, 0xF01E);
    assert_eq!(e.index_register, 15);
    assert_eq!(e.registers[0xF], 0);

    e.index_register = 0xFFF;
    e.registers[0x0] = 1;
    step(&mut e, 0xF01E);
    assert_eq!(e.index_register, 0);
    assert_eq!(e.registers[0xF], 1);
}

#[test]
fn font_character_address() {
    let mut e = machine();
    e.registers[0x0] = 0xAB;
    step(&mut e, 0xF029);
    assert_eq!(e.index_register, 80 + 0xB);
}

#[test]
fn decimal_conversion_writes_three_digits() {
    let mut e = machine();
    e.registers[0x0] = 234;
    e.index_register = 1000;
    step(&mut e, 0xF033);
    assert_eq!(&e.memory[1000..1003], &[2, 3, 4]);
}

#[test]
fn decimal_conversion_faults_at_memory_end() {
    let mut e = machine();
    e.index_register = 0xFFF;
    let pi = ParsedInstruction::parse(0xF033).unwrap();
    assert_eq!(e.execute_instruction(pi), Err(EmuError::MemoryFault));
    assert_eq!(e.memory[0xFFF], 0);
}

#[test]
fn block_store_with_x_zero_touches_one_cell() {
    let mut e = machine();
    e.registers[0x0] = 0x11;
    e.registers[0x1] = 0x22;
    e.index_register = 1000;
    step(&mut e, 0xF055);
    assert_eq!(e.memory[1000], 0x11);
    assert_eq!(e.memory[1001], 0);
}

#[test]
fn block_store_with_x_fifteen_touches_sixteen_cells() {
    let mut e = machine();
    for i in 0..16 {
        e.registers[i] = i as u8 + 1;
    }
    e.index_register = 1000;
    step(&mut e, 0xFF55);
    for i in 0..16 {
        assert_eq!(e.memory[1000 + i], i as u8 + 1);
    }
    assert_eq!(e.memory[1016], 0);
}

#[test]
fn block_load_with_x_zero_and_x_fifteen() {
    let mut e = machine();
    for i in 0..17 {
        e.memory[1000 + i] = 0x40 + i as u8;
    }
    e.index_register = 1000;
    step(&mut e, 0xF065);
    assert_eq!(e.registers[0x0], 0x40);
    assert_eq!(e.registers[0x1], 0);
    step(&mut e, 0xFF65);
    for i in 0..16 {
        assert_eq!(e.registers[i], 0x40 + i as u8);
    }
}

#[test]
fn block_store_fault_keeps_earlier_writes() {
    let mut e = machine();
    e.registers[0x0] = 0xAA;
    e.registers[0x1] = 0xBB;
    e.registers[0x2] = 0xCC;
    e.registers[0x3] = 0xDD;
    e.index_register = 0xFFE;
    let pi = ParsedInstruction::parse(0xF355).unwrap();
    assert_eq!(e.execute_instruction(pi), Err(EmuError::MemoryFault));
    assert_eq!(e.memory[0xFFE], 0xAA);
    assert_eq!(e.memory[0xFFF], 0xBB);
}
