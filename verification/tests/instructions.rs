use chip8::{font_table, Cpu, Opcode};

#[test]
fn new_intializes_cpu() {
    let cpu = Cpu::new();

    assert_eq!(cpu.i, 0);
    assert_eq!(cpu.pc, 0x200);
    assert_eq!(cpu.delay_timer, 0);
    assert_eq!(cpu.sound_timer, 0);
    assert_eq!(cpu.sp, 0);

    assert!(cpu.v.iter().all(|&x| x == 0));
    assert!(cpu.gfx.iter().all(|&x| x == false));
    assert!(cpu.stack.iter().all(|&x| x == 0));
    assert!(cpu.keys.iter().all(|&x| x == false));

    // The font table was placed at the bottom of memory.
    let font = font_table();
    for i in 0..80 {
        assert_eq!(font[i], cpu.mem[i]);
    }

    // The rest of the memory is zero.
    let m = &cpu.mem[80..];
    let all_zero = m.iter().all(|&x| x == 0);
    assert!(all_zero);

    assert_eq!(cpu.clock_acc, 0);
    assert_eq!(cpu.tick_acc, 0);

    assert_eq!(cpu.awaited_key, None);
}

#[test]
fn load_rom_reads_into_memory() {
    let rom = [0xF5, 0xC2, 0xF5, 0xC2];

    let mut cpu = Cpu::new();
    cpu.load_rom(&rom).unwrap();

    for i in 0..rom.len() {
        assert_eq!(cpu.mem[0x200 + i], rom[i]);
    }
}

#[test]
fn load_rom_with_exactly_max_size_returns_ok() {
    let max_rom_size = 4096 - 0x200;
    let rom = vec![1u8; max_rom_size];

    let mut cpu = Cpu::new();
    assert!(cpu.load_rom(&rom).is_ok());
}

#[test]
fn clear_00e0() {
    let mut cpu = Cpu::new();
    for p in cpu.gfx.iter_mut() {
        *p = true;
    }

    cpu.exec_opcode(Opcode::new(0x00E0)).unwrap();

    let all_false = cpu.gfx.iter().all(|&p| p == false);
    assert!(all_false);
    assert_eq!(cpu.pc, 0x200 + 2);
}

#[test]
pub fn ret_00ee() {
    let mut cpu = Cpu::new();

    cpu.pc = 0x0BBB;
    cpu.stack[0] = 0x0AAA;
    cpu.sp = 1;

    cpu.exec_opcode(Opcode::new(0x00EE)).unwrap();

    assert_eq!(cpu.sp, 0);
    assert_eq!(cpu.pc, 0x0AAA);
}

#[test]
fn jump_1nnn() {
    let mut cpu = Cpu::new();

    cpu.exec_opcode(Opcode::new(0x1ABC)).unwrap();

    assert_eq!(cpu.pc, 0x0ABC);
}

#[test]
fn call_2nnn() {
    let mut cpu = Cpu::new();
    cpu.pc = 0x0AAA;

    cpu.exec_opcode(Opcode::new(0x2ABC)).unwrap();

    assert_eq!(cpu.sp, 1);
    assert_eq!(cpu.pc, 0x0ABC);
    assert_eq!(cpu.stack[0], 0x0AAA + 2);
}

#[test]
fn skip_eq_byte_3xnn_equals() {
    let mut cpu = Cpu::new();
    cpu.v[0xA] = 0x25;

    cpu.exec_opcode(Opcode::new(0x3A25)).unwrap();

    assert_eq!(cpu.pc, 0x0200 + 4);
}

#[test]
fn skip_eq_byte_3xnn_not_equal() {
    let mut cpu = Cpu::new();
    cpu.v[0xA] = 0x25;

    cpu.exec_opcode(Opcode::new(0x3A26)).unwrap();

    assert_eq!(cpu.pc, 0x0200 + 2);
}

#[test]
fn skip_neq_byte_4xnn_not_equal() {
    let mut cpu = Cpu::new();
    cpu.v[0xA] = 0x25;

    cpu.exec_opcode(Opcode::new(0x4A26)).unwrap();

    assert_eq!(cpu.pc, 0x0200 + 4);
}

#[test]
fn skip_neq_byte_4xnn_equals() {
    let mut cpu = Cpu::new();
    cpu.v[0xA] = 0x25;

    cpu.exec_opcode(Opcode::new(0x4A25)).unwrap();

    assert_eq!(cpu.pc, 0x0200 + 2);
}

#[test]
fn skip_eq_5xy0_equals() {
    let mut cpu = Cpu::new();
    cpu.v[0xA] = 0x25;
    cpu.v[0xB] = 0x25;

    cpu.exec_opcode(Opcode::new(0x5AB0)).unwrap();

    assert_eq!(cpu.pc, 0x0200 + 4);
}

#[test]
fn skip_eq_5xy0_not_equal() {
    let mut cpu = Cpu::new();
    cpu.v[0xA] = 0x25;
    cpu.v[0xB] = 0x26;

    cpu.exec_opcode(Opcode::new(0x5AB0)).unwrap();

    assert_eq!(cpu.pc, 0x0200 + 2);
}

#[test]
fn set_byte_6xnn() {
    let mut cpu = Cpu::new();

    cpu.exec_opcode(Opcode::new(0x6A25)).unwrap();

    assert_eq!(cpu.v[0xA], 0x25);
    assert_eq!(cpu.pc, 0x0200 + 2);
}

#[test]
fn add_byte_7xnn() {
    let mut cpu = Cpu::new();
    cpu.v[0xA] = 0x13;

    cpu.exec_opcode(Opcode::new(0x7A25)).unwrap();

    assert_eq!(cpu.v[0xA], 0x13 + 0x25);
    assert_eq!(cpu.pc, 0x0200 + 2);
}

#[test]
fn set_8xy0() {
    let mut cpu = Cpu::new();
    cpu.v[0xB] = 0x25;

    cpu.exec_opcode(Opcode::new(0x8AB0)).unwrap();

    assert_eq!(cpu.v[0xA], cpu.v[0xB]);
    assert_eq!(cpu.v[0xB], 0x25);
    assert_eq!(cpu.pc, 0x0200 + 2);
}

#[test]
fn or_8xy1() {
    let mut cpu = Cpu::new();
    cpu.v[0xA] = 0x25;
    cpu.v[0xB] = 0x26;

    cpu.exec_opcode(Opcode::new(0x8AB1)).unwrap();

    assert_eq!(cpu.v[0xA], 0x25 | 0x26);
    assert_eq!(cpu.v[0xB], 0x26);
    assert_eq!(cpu.pc, 0x0200 + 2);
}

#[test]
fn and_8xy2() {
    let mut cpu = Cpu::new();
    cpu.v[0xA] = 0x25;
    cpu.v[0xB] = 0x26;

    cpu.exec_opcode(Opcode::new(0x8AB2)).unwrap();

    assert_eq!(cpu.v[0xA], 0x25 & 0x26);
    assert_eq!(cpu.v[0xB], 0x26);
    assert_eq!(cpu.pc, 0x0200 + 2);
}

#[test]
fn xor_8xy3() {
    let mut cpu = Cpu::new();
    cpu.v[0xA] = 0x25;
    cpu.v[0xB] = 0x26;

    cpu.exec_opcode(Opcode::new(0x8AB3)).unwrap();

    assert_eq!(cpu.v[0xA], 0x25 ^ 0x26);
    assert_eq!(cpu.v[0xB], 0x26);
    assert_eq!(cpu.pc, 0x0200 + 2);
}

#[test]
fn add_8xy4() {
    let mut cpu = Cpu::new();
    cpu.v[0xA] = 0xF5;
    cpu.v[0xB] = 0x05;

    cpu.exec_opcode(Opcode::new(0x8AB4)).unwrap();

    assert_eq!(cpu.v[0xA], 0xFA);
    assert_eq!(cpu.v[0xB], 0x05);
    assert_eq!(cpu.v[0xF], 0);
    assert_eq!(cpu.pc, 0x0200 + 2);
}

#[test]
fn add_8xy4_carry() {
    let mut cpu = Cpu::new();
    cpu.v[0xA] = 0xFF;
    cpu.v[0xB] = 0x05;

    cpu.exec_opcode(Opcode::new(0x8AB4)).unwrap();

    assert_eq!(cpu.v[0xA], 0x04);
    assert_eq!(cpu.v[0xB], 0x05);
    assert_eq!(cpu.v[0xF], 1);
    assert_eq!(cpu.pc, 0x0200 + 2);
}

#[test]
fn sub_8xy5_no_borrow() {
    let mut cpu = Cpu::new();
    cpu.v[0xA] = 0xA5;
    cpu.v[0xB] = 0xA3;

    cpu.exec_opcode(Opcode::new(0x8AB5)).unwrap();

    assert_eq!(cpu.v[0xA], 0x02);
    assert_eq!(cpu.v[0xB], 0xA3);
    assert_eq!(cpu.v[0xF], 1);
    assert_eq!(cpu.pc, 0x0200 + 2);
}
