use chip8_emulator::cpu::{Cpu, CpuError, MAX_ROM_SIZE, PROGRAM_START};
use chip8_emulator::display::{Display, FONT_SPRITES, PIXELS, WIDTH};
use chip8_emulator::instruction::{Instruction, Operation};
use chip8_emulator::keypad::Keypad;

fn run(cpu: &mut Cpu, opcode: u16) -> Result<(), CpuError> {
    cpu.execute_instruction(Instruction::from_opcode(opcode))
}

#[test]
fn decode_splits_nibbles() {
    let ins = Instruction::from_opcode(0xD1A5);
    assert_eq!(ins, Instruction(0xD, 0x1, 0xA, 0x5));
    assert_eq!(ins.nnn(), 0x1A5);
    assert_eq!(ins.kk(), 0xA5);
    assert_eq!(ins.x(), 0x1);
    assert_eq!(ins.y(), 0xA);
    assert_eq!(ins.n(), 0x5);
}

#[test]
fn read_is_big_endian_and_depends_on_two_bytes() {
    let mut a = [0u8; 4096];
    let mut b = [0xEEu8; 4096];
    a[0x300] = 0x8A;
    a[0x301] = 0xB4;
    b[0x300] = 0x8A;
    b[0x301] = 0xB4;
    let ia = Instruction::read(&a, 0x300);
    let ib = Instruction::read(&b, 0x300);
    assert_eq!(ia, Instruction(0x8, 0xA, 0xB, 0x4));
    assert_eq!(ia, ib);
    assert_eq!(ia, Instruction::from_opcode(0x8AB4));
}

#[test]
fn operations_are_classified() {
    assert_eq!(Instruction::from_opcode(0x00E0).operation(), Operation::ClearScreen);
    assert_eq!(Instruction::from_opcode(0x00EE).operation(), Operation::Return);
    assert_eq!(Instruction::from_opcode(0x0123).operation(), Operation::System(0x123));
    assert_eq!(Instruction::from_opcode(0x8AB4).operation(), Operation::Add(0xA, 0xB));
    assert_eq!(Instruction::from_opcode(0x8AB6).operation(), Operation::ShiftRight(0xA));
    assert_eq!(Instruction::from_opcode(0xC3F0).operation(), Operation::Random(0x3, 0xF0));
    assert_eq!(Instruction::from_opcode(0xF40A).operation(), Operation::WaitKey(0x4));
    assert_eq!(Instruction::from_opcode(0x5121).operation(), Operation::Unknown);
    assert_eq!(Instruction::from_opcode(0xE1FF).operation(), Operation::Unknown);
    assert_eq!(Instruction::from_opcode(0x8AB9).operation(), Operation::Unknown);
}

#[test]
fn unknown_opcode_only_advances() {
    let mut cpu = Cpu::new();
    cpu.set_v_register(1, 7);
    run(&mut cpu, 0x5121).unwrap();
    assert_eq!(cpu.program_counter(), 2);
    assert_eq!(cpu.v_register(1), 7);
    run(&mut cpu, 0x0123).unwrap();
    assert_eq!(cpu.program_counter(), 4);
}

#[test]
fn add_byte_wraps_and_keeps_flag() {
    let mut cpu = Cpu::new();
    cpu.set_v_register(2, 250);
    cpu.set_v_register(0xF, 0x77);
    run(&mut cpu, 0x720A).unwrap();
    assert_eq!(cpu.v_register(2), 4);
    assert_eq!(cpu.v_register(0xF), 0x77);
}

#[test]
fn add_registers_sets_carry_at_256() {
    let mut cpu = Cpu::new();
    cpu.set_v_register(1, 128);
    cpu.set_v_register(2, 128);
    run(&mut cpu, 0x8124).unwrap();
    assert_eq!(cpu.v_register(1), 0);
    assert_eq!(cpu.v_register(0xF), 1);
    cpu.set_v_register(1, 127);
    run(&mut cpu, 0x8124).unwrap();
    assert_eq!(cpu.v_register(1), 255);
    assert_eq!(cpu.v_register(0xF), 0);
}

#[test]
fn sub_registers_equal_values_has_no_borrow() {
    let mut cpu = Cpu::new();
    cpu.set_v_register(1, 42);
    cpu.set_v_register(2, 42);
    run(&mut cpu, 0x8125).unwrap();
    assert_eq!(cpu.v_register(1), 0);
    assert_eq!(cpu.v_register(0xF), 1);
}

#[test]
fn shifts_report_the_bit_shifted_out() {
    let mut cpu = Cpu::new();
    cpu.set_v_register(3, 0b1000_0001);
    run(&mut cpu, 0x8306).unwrap();
    assert_eq!(cpu.v_register(3), 0b0100_0000);
    assert_eq!(cpu.v_register(0xF), 1);
    cpu.set_v_register(3, 0b1000_0001);
    run(&mut cpu, 0x830E).unwrap();
    assert_eq!(cpu.v_register(3), 0b0000_0010);
    assert_eq!(cpu.v_register(0xF), 1);
    cpu.set_v_register(3, 0b0100_0000);
    run(&mut cpu, 0x830E).unwrap();
    assert_eq!(cpu.v_register(3), 0b1000_0000);
    assert_eq!(cpu.v_register(0xF), 0);
}

#[test]
fn shift_ignores_vy() {
    let mut cpu = Cpu::new();
    cpu.set_v_register(1, 8);
    cpu.set_v_register(2, 99);
    run(&mut cpu, 0x8126).unwrap();
    assert_eq!(cpu.v_register(1), 4);
    assert_eq!(cpu.v_register(2), 99);
}

#[test]
fn call_then_return_round_trip() {
    let mut cpu = Cpu::new();
    cpu.set_program_counter(0x23);
    run(&mut cpu, 0x2ABC).unwrap();
    assert_eq!(cpu.program_counter(), 0x0ABC);
    assert_eq!(cpu.stack_entry(0), 0x25);
    assert_eq!(cpu.stack_pointer(), 1);
    run(&mut cpu, 0x00EE).unwrap();
    assert_eq!(cpu.program_counter(), 0x25);
    assert_eq!(cpu.stack_pointer(), 0);
}

#[test]
fn return_with_empty_stack_fails() {
    let mut cpu = Cpu::new();
    cpu.set_program_counter(0x300);
    assert_eq!(run(&mut cpu, 0x00EE), Err(CpuError::StackUnderflow));
    assert_eq!(cpu.program_counter(), 0x300);
    assert_eq!(cpu.stack_pointer(), 0);
}

#[test]
fn seventeenth_call_overflows() {
    let mut cpu = Cpu::new();
    for depth in 0..16u8 {
        run(&mut cpu, 0x2400).unwrap();
        assert_eq!(cpu.stack_pointer(), depth + 1);
    }
    assert_eq!(run(&mut cpu, 0x2400), Err(CpuError::StackOverflow));
    assert_eq!(cpu.stack_pointer(), 16);
    assert_eq!(cpu.program_counter(), 0x400);
}

#[test]
fn jump_with_offset() {
    let mut cpu = Cpu::new();
    cpu.set_v_register(0, 0xFF);
    run(&mut cpu, 0xBFFF).unwrap();
    assert_eq!(cpu.program_counter(), 0x10FE);
}

#[test]
fn glyph_address_is_digit_times_five() {
    let mut cpu = Cpu::new();
    cpu.set_v_register(4, 0xF);
    run(&mut cpu, 0xF429).unwrap();
    assert_eq!(cpu.i_register(), 75);
}

#[test]
fn store_decimal_of_234() {
    let mut cpu = Cpu::new();
    cpu.set_i_register(0x300);
    cpu.set_v_register(7, 234);
    run(&mut cpu, 0xF733).unwrap();
    assert_eq!(cpu.memory_at(0x300), 2);
    assert_eq!(cpu.memory_at(0x301), 3);
    assert_eq!(cpu.memory_at(0x302), 4);
}

#[test]
fn store_decimal_past_memory_fails() {
    let mut cpu = Cpu::new();
    cpu.set_i_register(0xFFE);
    cpu.set_v_register(7, 234);
    assert_eq!(run(&mut cpu, 0xF733), Err(CpuError::AddressOutOfRange));
    assert_eq!(cpu.program_counter(), 0);
    assert_eq!(cpu.memory_at(0xFFE), 0);
}

#[test]
fn store_and_load_touch_exactly_x_plus_one_registers() {
    let mut cpu = Cpu::new();
    for r in 0..16usize {
        cpu.set_v_register(r, 10 + r as u8);
    }
    cpu.set_i_register(0x400);
    cpu.set_memory_at(0x3FF, 0xAA);
    cpu.set_memory_at(0x403, 0xBB);
    run(&mut cpu, 0xF255).unwrap();
    assert_eq!(cpu.memory_at(0x3FF), 0xAA);
    assert_eq!(cpu.memory_at(0x400), 10);
    assert_eq!(cpu.memory_at(0x401), 11);
    assert_eq!(cpu.memory_at(0x402), 12);
    assert_eq!(cpu.memory_at(0x403), 0xBB);

    cpu.set_memory_at(0x400, 1);
    cpu.set_memory_at(0x401, 2);
    cpu.set_memory_at(0x402, 3);
    run(&mut cpu, 0xF265).unwrap();
    assert_eq!(cpu.v_register(0), 1);
    assert_eq!(cpu.v_register(1), 2);
    assert_eq!(cpu.v_register(2), 3);
    assert_eq!(cpu.v_register(3), 13);
    assert_eq!(cpu.i_register(), 0x400);
}

#[test]
fn store_registers_past_memory_fails() {
    let mut cpu = Cpu::new();
    cpu.set_i_register(0xFFF);
    assert_eq!(run(&mut cpu, 0xF155), Err(CpuError::AddressOutOfRange));
    assert_eq!(run(&mut cpu, 0xF165), Err(CpuError::AddressOutOfRange));
    run(&mut cpu, 0xF055).unwrap();
}

#[test]
fn key_skip_with_invalid_key_fails() {
    let mut cpu = Cpu::new();
    cpu.set_v_register(1, 16);
    assert_eq!(run(&mut cpu, 0xE19E), Err(CpuError::InvalidKey));
    assert_eq!(run(&mut cpu, 0xE1A1), Err(CpuError::InvalidKey));
    assert_eq!(cpu.program_counter(), 0);
}

#[test]
fn wait_key_takes_highest_pressed() {
    let mut cpu = Cpu::new();
    cpu.set_program_counter(0x200);
    run(&mut cpu, 0xF30A).unwrap();
    assert_eq!(cpu.program_counter(), 0x200);
    cpu.keypad.key_down(0x3);
    cpu.keypad.key_down(0x9);
    run(&mut cpu, 0xF30A).unwrap();
    assert_eq!(cpu.program_counter(), 0x202);
    assert_eq!(cpu.v_register(3), 0x9);
}

#[test]
fn draw_sets_collision_flag_on_redraw() {
    let mut cpu = Cpu::new();
    cpu.reset();
    cpu.set_i_register(0);
    run(&mut cpu, 0xD005).unwrap();
    assert_eq!(cpu.v_register(0xF), 0);
    run(&mut cpu, 0xD005).unwrap();
    assert_eq!(cpu.v_register(0xF), 1);
    assert!(cpu.display.get_buffer().iter().all(|p| !p));
}

#[test]
fn draw_past_memory_fails() {
    let mut cpu = Cpu::new();
    cpu.set_i_register(0xFFE);
    assert_eq!(run(&mut cpu, 0xD003), Err(CpuError::AddressOutOfRange));
    run(&mut cpu, 0xD002).unwrap();
}

#[test]
fn clear_screen_blanks_display() {
    let mut cpu = Cpu::new();
    cpu.reset();
    run(&mut cpu, 0xD005).unwrap();
    run(&mut cpu, 0x00E0).unwrap();
    assert!(cpu.display.get_buffer().iter().all(|p| !p));
    assert_eq!(cpu.program_counter(), 0x204);
}

#[test]
fn reset_loads_font_and_start_address() {
    let mut cpu = Cpu::new();
    cpu.set_v_register(5, 9);
    cpu.keypad.key_down(1);
    cpu.reset();
    assert_eq!(cpu.program_counter(), PROGRAM_START);
    for a in 0..80usize {
        assert_eq!(cpu.memory_at(a), FONT_SPRITES[a]);
    }
    assert_eq!(cpu.memory_at(80), 0);
    assert_eq!(cpu.v_register(5), 0);
    assert!(!cpu.keypad.get_key(1));
}

#[test]
fn load_rom_and_run_cycles() {
    let mut cpu = Cpu::new();
    cpu.reset();
    cpu.load_rom(&[0x61, 0x2A, 0x12, 0x00]);
    assert_eq!(cpu.memory_at(0x200), 0x61);
    assert_eq!(cpu.memory_at(0x203), 0x00);
    cpu.execute_instruction_cycle().unwrap();
    assert_eq!(cpu.v_register(1), 0x2A);
    assert_eq!(cpu.program_counter(), 0x202);
    cpu.execute_instruction_cycle().unwrap();
    assert_eq!(cpu.program_counter(), 0x200);
}

#[test]
fn load_rom_of_largest_size() {
    let mut cpu = Cpu::new();
    cpu.reset();
    let rom = vec![0xAB; MAX_ROM_SIZE];
    cpu.load_rom(&rom);
    assert_eq!(cpu.memory_at(0x200), 0xAB);
    assert_eq!(cpu.memory_at(0xFFF), 0xAB);
    assert_eq!(cpu.memory_at(0x1FF), 0);
}

#[test]
fn cycle_past_memory_fails() {
    let mut cpu = Cpu::new();
    cpu.set_program_counter(0xFFF);
    assert_eq!(cpu.execute_instruction_cycle(), Err(CpuError::AddressOutOfRange));
    assert_eq!(cpu.program_counter(), 0xFFF);
}

#[test]
fn timers_stop_at_zero() {
    let mut cpu = Cpu::new();
    for _ in 0..3 {
        cpu.decrement_timers();
        assert_eq!(cpu.delay_timer(), 0);
        assert_eq!(cpu.sound_timer(), 0);
    }
    cpu.set_v_register(0, 2);
    run(&mut cpu, 0xF015).unwrap();
    run(&mut cpu, 0xF018).unwrap();
    assert!(cpu.is_sound_playing());
    cpu.decrement_timers();
    assert_eq!(cpu.delay_timer(), 1);
    assert!(cpu.is_sound_playing());
    cpu.decrement_timers();
    assert!(!cpu.is_sound_playing());
    cpu.decrement_timers();
    assert_eq!(cpu.delay_timer(), 0);
    assert_eq!(cpu.sound_timer(), 0);
}

#[test]
fn random_is_masked() {
    let mut cpu = Cpu::new();
    for _ in 0..32 {
        run(&mut cpu, 0xC503).unwrap();
        assert!(cpu.v_register(5) <= 3);
    }
    let mut exact = Cpu::new();
    exact.execute_operation(Operation::Random(5, 0x3C), 0xFF).unwrap();
    assert_eq!(exact.v_register(5), 0x3C);
}

#[test]
fn debug_info_mentions_registers() {
    let mut cpu = Cpu::new();
    cpu.reset();
    cpu.set_v_register(0, 7);
    let text = cpu.debug_info();
    assert!(text.contains("pc: 512"));
    assert!(text.contains("v: [7, 0"));
}

#[test]
fn draw_wraps_on_each_axis() {
    let mut display = Display::new();
    let sprite = [0xFFu8; 5];
    assert!(!display.draw(62, 30, &sprite));
    let buffer = display.get_buffer();
    let cols = [62usize, 63, 0, 1, 2, 3, 4, 5];
    let rows = [30usize, 31, 0, 1, 2];
    for p in 0..PIXELS {
        let (col, row) = (p % WIDTH, p / WIDTH);
        assert_eq!(buffer[p], cols.contains(&col) && rows.contains(&row), "pixel {}", p);
    }
}

#[test]
fn draw_twice_restores_and_collides() {
    let mut display = Display::new();
    display.draw(10, 3, &[0b1010_0000]);
    let before: Vec<bool> = display.get_buffer().to_vec();
    let sprite = [0xF0u8, 0x0F, 0x81];
    assert!(display.draw(8, 3, &sprite));
    assert!(display.draw(8, 3, &sprite));
    assert_eq!(display.get_buffer().to_vec(), before);
}

#[test]
fn draw_reports_overlap_not_change() {
    let mut display = Display::new();
    assert!(!display.draw(0, 0, &[0x80]));
    assert!(!display.draw(1, 0, &[0x80]));
    assert!(display.draw(0, 0, &[0xC0]));
    assert!(!display.get_buffer()[0]);
    assert!(!display.get_buffer()[1]);
}

#[test]
fn empty_sprite_draws_nothing() {
    let mut display = Display::new();
    assert!(!display.draw(5, 5, &[]));
    assert!(display.get_buffer().iter().all(|p| !p));
}

#[test]
fn keypad_latches() {
    let mut keypad = Keypad::new();
    keypad.key_down(0xF);
    assert!(keypad.get_key(0xF));
    assert!(!keypad.get_key(0xE));
    keypad.key_up(0xF);
    assert!(!keypad.get_key(0xF));
    keypad.key_down(0);
    keypad.clear();
    assert!(!keypad.get_key(0));
}

#[test]
fn cpu_keys_and_display_buffer() {
    let mut cpu = Cpu::new();
    cpu.key_down(0xA);
    assert!(cpu.keypad.get_key(0xA));
    cpu.set_v_register(2, 0xA);
    cpu.execute_instruction(Instruction::from_opcode(0xE29E)).unwrap();
    assert_eq!(cpu.program_counter(), 4);
    cpu.key_up(0xA);
    assert!(!cpu.keypad.get_key(0xA));
    cpu.reset();
    cpu.execute_instruction(Instruction::from_opcode(0xD005)).unwrap();
    let buffer = cpu.get_display_buffer();
    assert_eq!(buffer.len(), PIXELS);
    assert!(buffer[0] && buffer[3] && !buffer[4] && buffer[WIDTH] && !buffer[1 + WIDTH]);
}

#[test]
fn address_and_byte_use_low_nibbles_only() {
    assert_eq!(Instruction(0x20, 0x1, 0x2, 0x3).nnn(), 0x123);
    assert_eq!(Instruction(0x20, 0x30, 0xA, 0xB).kk(), 0xAB);
}

#[test]
fn debug_info_shows_pending_instruction() {
    let mut cpu = Cpu::new();
    cpu.reset();
    cpu.load_rom(&[0x12, 0x34]);
    cpu.set_i_register(0x2A);
    cpu.set_delay_timer(9);
    let text = cpu.debug_info();
    assert!(text.contains("i: 42"));
    assert!(text.contains("dt: 9"));
    assert!(text.contains("sp: 0"));
    assert!(text.contains("Instruction(1, 2, 3, 4)"));
    cpu.set_program_counter(0xFFF);
    assert!(cpu.debug_info().contains("instruction: None"));
}
