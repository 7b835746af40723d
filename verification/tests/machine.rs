use chip8::{Cpu, InstructionError, Key, LoadError, Opcode};

#[test]
fn sub_8xy5_borrow() {
    let mut cpu = Cpu::new();
    cpu.v[0xA] = 0x03;
    cpu.v[0xB] = 0x05;

    cpu.exec_opcode(Opcode::new(0x8AB5)).unwrap();

    assert_eq!(cpu.v[0xA], 0xFE);
    assert_eq!(cpu.v[0xF], 0);
}

#[test]
fn subn_8xy7_no_borrow() {
    let mut cpu = Cpu::new();
    cpu.v[0xA] = 0x03;
    cpu.v[0xB] = 0x05;

    cpu.exec_opcode(Opcode::new(0x8AB7)).unwrap();

    assert_eq!(cpu.v[0xA], 0x02);
    assert_eq!(cpu.v[0xF], 1);
}

#[test]
fn subn_8xy7_borrow() {
    let mut cpu = Cpu::new();
    cpu.v[0xA] = 0x05;
    cpu.v[0xB] = 0x03;

    cpu.exec_opcode(Opcode::new(0x8AB7)).unwrap();

    assert_eq!(cpu.v[0xA], 0xFE);
    assert_eq!(cpu.v[0xF], 0);
}

#[test]
fn shift_right_8xy6() {
    let mut cpu = Cpu::new();
    cpu.v[0xA] = 0x05;

    cpu.exec_opcode(Opcode::new(0x8AB6)).unwrap();

    assert_eq!(cpu.v[0xA], 0x02);
    assert_eq!(cpu.v[0xF], 1);
}

#[test]
fn shift_left_8xye() {
    let mut cpu = Cpu::new();
    cpu.v[0xA] = 0x81;

    cpu.exec_opcode(Opcode::new(0x8ABE)).unwrap();

    assert_eq!(cpu.v[0xA], 0x02);
    assert_eq!(cpu.v[0xF], 1);
}

#[test]
fn skip_neq_9xy0() {
    let mut cpu = Cpu::new();
    cpu.v[0xA] = 0x25;
    cpu.v[0xB] = 0x26;

    cpu.exec_opcode(Opcode::new(0x9AB0)).unwrap();
    assert_eq!(cpu.pc, 0x0200 + 4);

    let mut cpu2 = Cpu::new();
    cpu2.v[0xA] = 0x25;
    cpu2.v[0xB] = 0x25;
    cpu2.exec_opcode(Opcode::new(0x9AB0)).unwrap();
    assert_eq!(cpu2.pc, 0x0200 + 2);
}

#[test]
fn set_i_annn() {
    let mut cpu = Cpu::new();

    cpu.exec_opcode(Opcode::new(0xA123)).unwrap();

    assert_eq!(cpu.i, 0x123);
    assert_eq!(cpu.pc, 0x0200 + 2);
}

#[test]
fn jump_v0_bnnn() {
    let mut cpu = Cpu::new();
    cpu.v[0] = 0x10;

    cpu.exec_opcode(Opcode::new(0xB123)).unwrap();

    assert_eq!(cpu.pc, 0x133);
}

#[test]
fn rand_cxnn_masks_with_zero() {
    let mut cpu = Cpu::new();
    cpu.v[5] = 0xAB;

    cpu.exec_opcode(Opcode::new(0xC500)).unwrap();

    assert_eq!(cpu.v[5], 0);
    assert_eq!(cpu.pc, 0x0200 + 2);
}

#[test]
fn rand_cxnn_stays_inside_mask() {
    let mut cpu = Cpu::new();

    cpu.exec_opcode(Opcode::new(0xC50F)).unwrap();

    assert_eq!(cpu.v[5] & 0xF0, 0);
}

#[test]
fn draw_dxyn_sets_pixels_and_flag() {
    let mut cpu = Cpu::new();
    cpu.mem[0x300] = 0b1100_0000;
    cpu.i = 0x300;
    cpu.v[0] = 2;
    cpu.v[1] = 1;

    cpu.exec_opcode(Opcode::new(0xD011)).unwrap();

    assert!(cpu.gfx[1 * 64 + 2]);
    assert!(cpu.gfx[1 * 64 + 3]);
    assert!(!cpu.gfx[1 * 64 + 4]);
    assert_eq!(cpu.v[0xF], 1);
}

#[test]
fn draw_twice_restores_the_framebuffer() {
    let mut cpu = Cpu::new();
    cpu.mem[0x300] = 0b1010_0101;
    cpu.mem[0x301] = 0b0111_0001;
    cpu.i = 0x300;
    cpu.v[4] = 13;
    cpu.v[5] = 7;

    cpu.exec_opcode(Opcode::new(0xD452)).unwrap();
    assert_eq!(cpu.v[0xF], 1);

    cpu.exec_opcode(Opcode::new(0xD452)).unwrap();

    assert!(cpu.gfx.iter().all(|&p| !p));
    assert_eq!(cpu.v[0xF], 0);
}

#[test]
fn draw_flag_zero_when_only_erasing() {
    let mut cpu = Cpu::new();
    cpu.mem[0x300] = 0b1100_0000;
    cpu.i = 0x300;
    cpu.gfx[0] = true;
    cpu.gfx[1] = true;

    cpu.exec_opcode(Opcode::new(0xD011)).unwrap();

    assert!(!cpu.gfx[0]);
    assert!(!cpu.gfx[1]);
    assert_eq!(cpu.v[0xF], 0);
}

#[test]
fn draw_wraps_around_both_edges() {
    let mut cpu = Cpu::new();
    cpu.mem[0x300] = 0b1100_0000;
    cpu.mem[0x301] = 0b1000_0000;
    cpu.i = 0x300;
    cpu.v[0] = 63;
    cpu.v[1] = 31;

    cpu.exec_opcode(Opcode::new(0xD012)).unwrap();

    assert!(cpu.gfx[31 * 64 + 63]);
    assert!(cpu.gfx[31 * 64 + 0]);
    assert!(cpu.gfx[0 * 64 + 63]);
    assert_eq!(cpu.v[0xF], 1);
}

#[test]
fn skip_pressed_ex9e() {
    let mut cpu = Cpu::new();
    cpu.v[3] = 0x5;
    cpu.press_key(Key::D5);

    cpu.exec_opcode(Opcode::new(0xE39E)).unwrap();
    assert_eq!(cpu.pc, 0x0200 + 4);

    let mut cpu2 = Cpu::new();
    cpu2.v[3] = 0x5;
    cpu2.exec_opcode(Opcode::new(0xE39E)).unwrap();
    assert_eq!(cpu2.pc, 0x0200 + 2);
}

#[test]
fn skip_not_pressed_exa1() {
    let mut cpu = Cpu::new();
    cpu.v[3] = 0x5;

    cpu.exec_opcode(Opcode::new(0xE3A1)).unwrap();
    assert_eq!(cpu.pc, 0x0200 + 4);

    let mut cpu2 = Cpu::new();
    cpu2.v[3] = 0x5;
    cpu2.press_key(Key::D5);
    cpu2.exec_opcode(Opcode::new(0xE3A1)).unwrap();
    assert_eq!(cpu2.pc, 0x0200 + 2);
}

#[test]
fn get_delay_fx07() {
    let mut cpu = Cpu::new();
    cpu.delay_timer = 0x42;

    cpu.exec_opcode(Opcode::new(0xF207)).unwrap();

    assert_eq!(cpu.v[2], 0x42);
}

#[test]
fn set_delay_fx15_and_set_sound_fx18() {
    let mut cpu = Cpu::new();
    cpu.v[2] = 0x42;
    cpu.v[3] = 0x21;

    cpu.exec_opcode(Opcode::new(0xF215)).unwrap();
    cpu.exec_opcode(Opcode::new(0xF318)).unwrap();

    assert_eq!(cpu.delay_timer, 0x42);
    assert_eq!(cpu.sound_timer, 0x21);
}

#[test]
fn add_index_fx1e() {
    let mut cpu = Cpu::new();
    cpu.i = 0x100;
    cpu.v[6] = 0x20;

    cpu.exec_opcode(Opcode::new(0xF61E)).unwrap();

    assert_eq!(cpu.i, 0x120);
}

#[test]
fn set_char_fx29_uses_low_nibble() {
    let mut cpu = Cpu::new();
    cpu.v[1] = 0x07;
    cpu.exec_opcode(Opcode::new(0xF129)).unwrap();
    assert_eq!(cpu.i, 35);

    cpu.v[1] = 0x17;
    cpu.exec_opcode(Opcode::new(0xF129)).unwrap();
    assert_eq!(cpu.i, 35);

    cpu.v[1] = 0x00;
    cpu.exec_opcode(Opcode::new(0xF129)).unwrap();
    assert_eq!(cpu.i, 0);
}

#[test]
fn store_bcd_fx33() {
    let mut cpu = Cpu::new();
    cpu.v[7] = 234;
    cpu.i = 0x400;

    cpu.exec_opcode(Opcode::new(0xF733)).unwrap();

    assert_eq!(cpu.mem[0x400], 2);
    assert_eq!(cpu.mem[0x401], 3);
    assert_eq!(cpu.mem[0x402], 4);
}

#[test]
fn store_bcd_fx33_single_digit() {
    let mut cpu = Cpu::new();
    cpu.v[7] = 7;
    cpu.i = 0x400;

    cpu.exec_opcode(Opcode::new(0xF733)).unwrap();

    assert_eq!(cpu.mem[0x400], 0);
    assert_eq!(cpu.mem[0x401], 0);
    assert_eq!(cpu.mem[0x402], 7);
}

#[test]
fn store_regs_fx55() {
    let mut cpu = Cpu::new();
    cpu.i = 0x400;
    for k in 0..4 {
        cpu.v[k] = (k as u8) + 10;
    }
    cpu.v[4] = 99;

    cpu.exec_opcode(Opcode::new(0xF355)).unwrap();

    assert_eq!(cpu.mem[0x400], 10);
    assert_eq!(cpu.mem[0x401], 11);
    assert_eq!(cpu.mem[0x402], 12);
    assert_eq!(cpu.mem[0x403], 13);
    assert_eq!(cpu.mem[0x404], 0);
}

#[test]
fn load_regs_fx65() {
    let mut cpu = Cpu::new();
    cpu.i = 0x400;
    cpu.mem[0x400] = 10;
    cpu.mem[0x401] = 11;
    cpu.mem[0x402] = 12;
    cpu.v[3] = 99;

    cpu.exec_opcode(Opcode::new(0xF265)).unwrap();

    assert_eq!(cpu.v[0], 10);
    assert_eq!(cpu.v[1], 11);
    assert_eq!(cpu.v[2], 12);
    assert_eq!(cpu.v[3], 99);
}

#[test]
fn call_then_return_round_trips_the_program_counter() {
    let mut cpu = Cpu::new();
    cpu.pc = 0x0AAA;

    cpu.exec_opcode(Opcode::new(0x2ABC)).unwrap();
    assert_eq!(cpu.pc, 0x0ABC);
    assert_eq!(cpu.stack[0], 0x0AAC);

    cpu.exec_opcode(Opcode::new(0x00EE)).unwrap();
    assert_eq!(cpu.pc, 0x0AAC);
    assert_eq!(cpu.sp, 0);
}

#[test]
fn unknown_system_call_is_unsupported() {
    let mut cpu = Cpu::new();
    let r = cpu.exec_opcode(Opcode::new(0x0ABC));
    assert_eq!(r, Err(InstructionError::Unsupported));
    assert_eq!(cpu.pc, 0x0200 + 2);
}

#[test]
fn unknown_selectors_are_illegal() {
    let mut cpu = Cpu::new();
    assert_eq!(cpu.exec_opcode(Opcode::new(0x8AB8)), Err(InstructionError::Illegal));
    let mut cpu2 = Cpu::new();
    assert_eq!(cpu2.exec_opcode(Opcode::new(0xE344)), Err(InstructionError::Illegal));
    let mut cpu3 = Cpu::new();
    assert_eq!(cpu3.exec_opcode(Opcode::new(0xFA99)), Err(InstructionError::Illegal));
}

#[test]
fn load_rom_oversized_source_fails_and_keeps_the_prefix() {
    let mut rom = vec![0u8; 3585];
    for (k, b) in rom.iter_mut().enumerate() {
        *b = (k % 251) as u8;
    }
    let mut cpu = Cpu::new();

    let r = cpu.load_rom(&rom);

    assert_eq!(r, Err(LoadError::Oversized));
    for k in 0..3584 {
        assert_eq!(cpu.mem[0x200 + k], rom[k]);
    }
}

#[test]
fn load_rom_exact_fit_places_every_byte() {
    let mut rom = vec![0u8; 3584];
    for (k, b) in rom.iter_mut().enumerate() {
        *b = (k % 249) as u8;
    }
    let mut cpu = Cpu::new();

    assert!(cpu.load_rom(&rom).is_ok());
    for k in 0..3584 {
        assert_eq!(cpu.mem[0x200 + k], rom[k]);
    }
}

#[test]
fn press_and_release_key_toggle_the_table() {
    let mut cpu = Cpu::new();

    cpu.press_key(Key::D5);
    assert!(cpu.keys[5]);

    cpu.release_key(Key::D5);
    assert!(!cpu.keys[5]);
}

#[test]
fn key_codes_are_the_hex_digits() {
    assert_eq!(Key::D0.code(), 0x0);
    assert_eq!(Key::D9.code(), 0x9);
    assert_eq!(Key::A.code(), 0xA);
    assert_eq!(Key::F.code(), 0xF);
}

#[test]
fn pixels_exposes_the_framebuffer_row_major() {
    let mut cpu = Cpu::new();
    cpu.gfx[5] = true;
    cpu.gfx[64 + 3] = true;

    let rows = cpu.pixels();

    assert_eq!(rows.len(), 32);
    assert!(rows.iter().all(|r| r.len() == 64));
    assert!(rows[0][5]);
    assert!(rows[1][3]);
    assert!(!rows[0][0]);
}

#[test]
fn step_drains_whole_clock_periods_and_ticks_timers() {
    let mut cpu = Cpu::new();
    cpu.load_rom(&[0x12, 0x00]).unwrap();
    cpu.delay_timer = 2;
    cpu.sound_timer = 1;

    cpu.step(20_000_000).unwrap();

    assert_eq!(cpu.delay_timer, 1);
    assert_eq!(cpu.sound_timer, 0);
    assert_eq!(cpu.pc, 0x200);

    cpu.step(20_000_000).unwrap();

    assert_eq!(cpu.delay_timer, 0);
    assert_eq!(cpu.sound_timer, 0);
}

#[test]
fn step_stops_at_the_first_failing_cycle() {
    let mut cpu = Cpu::new();
    cpu.load_rom(&[0x00, 0x00]).unwrap();

    let r = cpu.step(2_000_000);

    assert_eq!(r, Err(InstructionError::Unsupported));
    assert_eq!(cpu.pc, 0x202);
}

#[test]
fn await_key_suspends_until_a_key_press() {
    let mut cpu = Cpu::new();
    cpu.load_rom(&[0xF1, 0x0A, 0x12, 0x02]).unwrap();

    cpu.step(2_000_000).unwrap();
    assert_eq!(cpu.awaited_key, Some(1));
    assert_eq!(cpu.pc, 0x202);

    let regs = cpu.v.clone();
    cpu.step(10_000_000).unwrap();
    assert_eq!(cpu.pc, 0x202);
    assert_eq!(cpu.v, regs);
    assert_eq!(cpu.awaited_key, Some(1));

    cpu.press_key(Key::A);
    assert_eq!(cpu.v[1], 0xA);
    assert_eq!(cpu.awaited_key, None);

    cpu.step(2_000_000).unwrap();
    assert_eq!(cpu.pc, 0x202);
}
