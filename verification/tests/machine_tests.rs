use chip8::controller::Controller;
use chip8::decoder::ParsedInstruction;
use chip8::display::Display;
use chip8::emulator::Emulator;
use chip8::error::EmuError;

fn pixel(e: &Emulator, x: usize, y: usize) -> bool {
    e.display.buffer[y * 64 + x]
}

fn step(e: &mut Emulator, w: u16) {
    let pi = ParsedInstruction::parse(w).unwrap();
    e.execute_instruction(pi).unwrap();
}

#[test]
fn new_machine_layout() {
    let e = Emulator::new(vec![0xAB, 0xCD]);
    assert_eq!(e.memory.len(), 4096);
    assert_eq!(e.memory[80], 0xF0, "first font byte");
    assert_eq!(e.memory[159], 0x80, "last font byte");
    assert_eq!(e.memory[512], 0xAB);
    assert_eq!(e.memory[513], 0xCD);
    assert_eq!(e.memory[0], 0);
    assert_eq!(e.memory[514], 0);
    assert_eq!(e.program_counter, 512);
    assert_eq!(e.index_register, 0);
    assert!(e.stack.is_empty());
    assert!(e.display.buffer.iter().all(|&p| !p));
    assert!(!e.display.draw);
}

#[test]
fn display_new_and_clear() {
    let mut d = Display::new();
    assert_eq!(d.buffer.len(), 64 * 32);
    assert!(!d.draw);
    d.buffer[77] = true;
    assert!(d.pixel(13, 1), "pixel (13, 1) lives at index 1 * 64 + 13");
    d.clear();
    assert!(d.buffer.iter().all(|&p| !p));
    assert!(!d.pixel(13, 1));
    assert!(d.draw);
}

#[test]
fn default_display_and_controller_start_empty() {
    let d = Display::default();
    assert!(d.buffer.iter().all(|&p| !p) && !d.draw);
    let c = Controller::default();
    assert!((0..16).all(|k| !c.is_key_pressed(k)));
    assert_eq!(c.last_pressed, None);
}

#[test]
fn clear_instruction_resets_every_pixel() {
    let mut e = Emulator::new(Vec::new());
    e.display.buffer[0] = true;
    e.display.buffer[2047] = true;
    e.display.draw = false;
    step(&mut e, 0x00E0);
    assert!(e.display.buffer.iter().all(|&p| !p));
    assert!(e.display.draw, "clear marks the display changed regardless of prior state");
}

fn draw_setup(sprite: &[u8]) -> Emulator {
    let mut e = Emulator::new(Vec::new());
    e.index_register = 1000;
    for (i, &b) in sprite.iter().enumerate() {
        e.memory[1000 + i] = b;
    }
    e
}

#[test]
fn draw_sets_pixels_and_collision_flag() {
    let mut e = draw_setup(&[0b1010_0000]);
    e.registers[0x0] = 4;
    e.registers[0x1] = 2;
    step(&mut e, 0xD011);
    assert!(pixel(&e, 4, 2));
    assert!(!pixel(&e, 5, 2));
    assert!(pixel(&e, 6, 2));
    assert_eq!(e.registers[0xF], 0, "no pixel was already set");
    assert!(e.display.draw);

    // Overlapping second draw collides.
    step(&mut e, 0xD011);
    assert_eq!(e.registers[0xF], 1, "an already-set pixel was toggled");
}

#[test]
fn draw_twice_restores_the_grid() {
    let mut e = draw_setup(&[0xFF, 0x81, 0xFF]);
    e.registers[0x0] = 10;
    e.registers[0x1] = 5;
    step(&mut e, 0xD013);
    step(&mut e, 0xD013);
    assert!(e.display.buffer.iter().all(|&p| !p));
    assert_eq!(e.registers[0xF], 1);
}

#[test]
fn draw_does_not_collide_with_disjoint_pixels() {
    let mut e = draw_setup(&[0x80]);
    e.registers[0x0] = 0;
    e.registers[0x1] = 0;
    step(&mut e, 0xD011);
    e.registers[0x0] = 1;
    step(&mut e, 0xD011);
    assert_eq!(e.registers[0xF], 0, "toggling only unset pixels is no collision");
    assert!(pixel(&e, 0, 0) && pixel(&e, 1, 0));
}

#[test]
fn draw_clips_at_right_edge() {
    let mut e = draw_setup(&[0xFF]);
    e.registers[0x0] = 60;
    e.registers[0x1] = 0;
    step(&mut e, 0xD011);
    for x in 60..64 {
        assert!(pixel(&e, x, 0), "column {x} lies inside the clipped sprite");
    }
    for x in 0..4 {
        assert!(!pixel(&e, x, 0), "no wraparound into column {x}");
    }
}

#[test]
fn draw_clips_at_bottom_edge() {
    let mut e = draw_setup(&[0x80, 0x80, 0x80, 0x80]);
    e.registers[0x0] = 0;
    e.registers[0x1] = 30;
    step(&mut e, 0xD014);
    assert!(pixel(&e, 0, 30));
    assert!(pixel(&e, 0, 31));
    assert!(!pixel(&e, 0, 0), "no wraparound onto the top row");
    assert!(!pixel(&e, 0, 1));
}

#[test]
fn draw_wraps_start_coordinates() {
    let mut e = draw_setup(&[0x80]);
    e.registers[0x0] = 64 + 3;
    e.registers[0x1] = 32 + 1;
    step(&mut e, 0xD011);
    assert!(pixel(&e, 3, 1), "start coordinates are taken modulo the grid size");
}

#[test]
fn draw_reading_past_memory_end_faults() {
    let mut e = Emulator::new(Vec::new());
    e.index_register = 0xFFF;
    e.registers[0xF] = 7;
    let pi = ParsedInstruction::parse(0xD012).unwrap();
    assert_eq!(e.execute_instruction(pi), Err(EmuError::MemoryFault));
    assert_eq!(e.registers[0xF], 7, "a faulting draw leaves the state unchanged");
}

#[test]
fn call_and_return_round_trip() {
    // 512: call 0x208; 0x208: return.
    let mut e = Emulator::new(vec![0x22, 0x08]);
    e.memory[0x208] = 0x00;
    e.memory[0x209] = 0xEE;
    e.perform_fde_cycle().unwrap();
    assert_eq!(e.program_counter, 0x208);
    assert_eq!(e.stack, vec![514]);
    e.perform_fde_cycle().unwrap();
    assert_eq!(e.program_counter, 514, "return lands just after the call");
    assert!(e.stack.is_empty());
}

#[test]
fn call_past_capacity_overflows() {
    // 512: call 512, forever.
    let mut e = Emulator::new(vec![0x22, 0x00]);
    for _ in 0..16 {
        e.perform_fde_cycle().unwrap();
    }
    assert_eq!(e.stack.len(), 16);
    assert_eq!(e.perform_fde_cycle(), Err(EmuError::StackOverflow));
    assert_eq!(e.stack.len(), 16, "the failing call pushes nothing");
}

#[test]
fn return_on_empty_stack_underflows() {
    let mut e = Emulator::new(vec![0x00, 0xEE]);
    assert_eq!(e.perform_fde_cycle(), Err(EmuError::StackUnderflow));
}

#[test]
fn invalid_word_is_rejected_with_the_word() {
    let mut e = Emulator::new(vec![0xFF, 0xFF]);
    assert_eq!(e.perform_fde_cycle(), Err(EmuError::InvalidOpcode(0xFFFF)));
    assert_eq!(e.program_counter, 512, "a failing decode leaves the state unchanged");
}

#[test]
fn fetch_past_memory_end_faults() {
    // 512: jump to 0xFFF, where no full word fits.
    let mut e = Emulator::new(vec![0x1F, 0xFF]);
    e.perform_fde_cycle().unwrap();
    assert_eq!(e.program_counter, 0xFFF);
    assert_eq!(e.perform_fde_cycle(), Err(EmuError::MemoryFault));
}

#[test]
fn wait_for_key_spins_then_takes_the_key() {
    // 512: wait for a key into V3.
    let mut e = Emulator::new(vec![0xF3, 0x0A]);
    for _ in 0..3 {
        e.perform_fde_cycle().unwrap();
        assert_eq!(e.program_counter, 512, "no key: the same instruction is re-fetched");
    }
    e.controller.press_key(0x7);
    e.perform_fde_cycle().unwrap();
    assert_eq!(e.program_counter, 514, "a held key lets the program advance exactly once");
    assert_eq!(e.registers[0x3], 0x7);
}

#[test]
fn key_down_and_key_not_down_skips() {
    let mut e = Emulator::new(Vec::new());
    e.registers[0x0] = 0x5;
    step(&mut e, 0xE09E);
    assert_eq!(e.program_counter, 512, "key 5 is not held");
    step(&mut e, 0xE0A1);
    assert_eq!(e.program_counter, 514);
    e.controller.press_key(0x5);
    step(&mut e, 0xE09E);
    assert_eq!(e.program_counter, 516);
    step(&mut e, 0xE0A1);
    assert_eq!(e.program_counter, 516);
}

#[test]
fn controller_tracks_held_keys() {
    let mut c = Controller::new();
    assert!(!c.is_key_pressed(0x4));
    c.press_key(0x4);
    assert!(c.is_key_pressed(0x4));
    c.release_key(0x4);
    assert!(!c.is_key_pressed(0x4));
    c.press_key(0xFF);
    assert_eq!(c.last_pressed, None, "a value outside the sixteen keys changes nothing");
}

#[test]
fn controller_latch_does_not_fall_back() {
    let mut c = Controller::new();
    c.press_key(0x1);
    c.press_key(0x2);
    assert_eq!(c.last_pressed, Some(0x2));
    c.release_key(0x2);
    assert_eq!(c.last_pressed, None, "the latch does not fall back to an earlier key");
    assert!(c.is_key_pressed(0x1), "the earlier key is still held");
    c.release_key(0x3);
    assert_eq!(c.last_pressed, None);
}
