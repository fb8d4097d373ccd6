use chipd::Cpu;

const FONT: [u8; 80] = [
    0xF0, 0x90, 0x90, 0x90, 0xF0, 0x20, 0x60, 0x20, 0x20, 0x70, 0xF0, 0x10, 0xF0, 0x80, 0xF0,
    0xF0, 0x10, 0xF0, 0x10, 0xF0, 0x90, 0x90, 0xF0, 0x10, 0x10, 0xF0, 0x80, 0xF0, 0x10, 0xF0,
    0xF0, 0x80, 0xF0, 0x90, 0xF0, 0xF0, 0x10, 0x20, 0x40, 0x40, 0xF0, 0x90, 0xF0, 0x90, 0xF0,
    0xF0, 0x90, 0xF0, 0x10, 0xF0, 0xF0, 0x90, 0xF0, 0x90, 0x90, 0xE0, 0x90, 0xE0, 0x90, 0xE0,
    0xF0, 0x80, 0x80, 0x80, 0xF0, 0xE0, 0x90, 0x90, 0x90, 0xE0, 0xF0, 0x80, 0xF0, 0x80, 0xF0,
    0xF0, 0x80, 0xF0, 0x80, 0x80,
];

fn machine(program: &[u8]) -> Cpu {
    let mut cpu = Cpu::new();
    cpu.load_rom(program);
    cpu
}

fn run(cpu: &mut Cpu, cycles: usize) {
    for _ in 0..cycles {
        assert!(cpu.can_cycle());
        cpu.emu_cycle_with(0);
    }
}

#[test]
fn new_machine_is_powered_on() {
    let cpu = Cpu::new();
    assert_eq!(cpu.pc, 0x200);
    assert_eq!(&cpu.memory[..80], &FONT[..]);
    assert!(cpu.memory[80..].iter().all(|b| *b == 0));
    assert!(cpu.v.iter().all(|b| *b == 0));
    assert_eq!(cpu.i, 0);
    assert_eq!(cpu.sp, 0);
    assert!(cpu.display.iter().all(|p| !*p));
    assert!(!cpu.screen_update && !cpu.paused && !cpu.blocked);
    assert_eq!(cpu.key_register, None);
}

#[test]
fn load_rom_copies_from_program_start() {
    let cpu = machine(&[0xAB, 0xCD, 0xEF]);
    assert_eq!(cpu.memory[0x1FF], 0);
    assert_eq!(&cpu.memory[0x200..0x203], &[0xAB, 0xCD, 0xEF]);
    assert_eq!(cpu.memory[0x203], 0);
    assert_eq!(&cpu.memory[..80], &FONT[..]);
}

#[test]
fn load_rom_fills_all_program_memory() {
    let rom = vec![0x5Au8; 4096 - 0x200];
    let cpu = machine(&rom);
    assert!(cpu.memory[0x200..].iter().all(|b| *b == 0x5A));
}

#[test]
fn jump_sets_program_counter() {
    let mut cpu = machine(&[0x1A, 0xBC]);
    run(&mut cpu, 1);
    assert_eq!(cpu.pc, 0xABC);
}

#[test]
fn call_then_return() {
    // 0x200: call 0x206; 0x202: (next); 0x206: return
    let mut cpu = machine(&[0x22, 0x06, 0x00, 0x00, 0x00, 0x00, 0x00, 0xEE]);
    run(&mut cpu, 1);
    assert_eq!(cpu.pc, 0x206);
    assert_eq!(cpu.sp, 1);
    assert_eq!(cpu.stack[0], 0x202);
    run(&mut cpu, 1);
    assert_eq!(cpu.pc, 0x202);
    assert_eq!(cpu.sp, 0);
}

#[test]
fn skip_if_equal_and_not_equal() {
    let mut cpu = machine(&[0x63, 0x07, 0x33, 0x07, 0x00, 0x00, 0x43, 0x07, 0x43, 0x08]);
    run(&mut cpu, 2);
    assert_eq!(cpu.pc, 0x206); // 3XNN skipped
    run(&mut cpu, 1);
    assert_eq!(cpu.pc, 0x208); // 4XNN with equal value does not skip
    run(&mut cpu, 1);
    assert_eq!(cpu.pc, 0x20C); // 4XNN with different value skips
}

#[test]
fn skip_on_registers() {
    let mut cpu = machine(&[0x61, 0x05, 0x62, 0x05, 0x51, 0x20, 0x00, 0x00, 0x91, 0x20, 0x91, 0x30]);
    run(&mut cpu, 3);
    assert_eq!(cpu.pc, 0x208); // 5XY0 skipped
    run(&mut cpu, 1);
    assert_eq!(cpu.pc, 0x20A); // 9XY0 with equal registers does not skip
    run(&mut cpu, 1);
    assert_eq!(cpu.pc, 0x20E); // V1 != V3 skips
}

#[test]
fn load_and_add_immediate_wraps() {
    let mut cpu = machine(&[0x6A, 0xFF, 0x7A, 0x02]);
    run(&mut cpu, 2);
    assert_eq!(cpu.v[0xA], 0x01);
    assert_eq!(cpu.v[0xF], 0); // 7XNN leaves VF alone
    assert_eq!(cpu.pc, 0x204);
}

#[test]
fn register_logic() {
    let mut cpu = machine(&[
        0x60, 0b1100, 0x61, 0b1010, 0x82, 0x00, 0x82, 0x11, 0x83, 0x00, 0x83, 0x12, 0x84, 0x00,
        0x84, 0x13,
    ]);
    run(&mut cpu, 8);
    assert_eq!(cpu.v[2], 0b1110);
    assert_eq!(cpu.v[3], 0b1000);
    assert_eq!(cpu.v[4], 0b0110);
}

#[test]
fn add_with_carry() {
    let mut cpu = machine(&[0x60, 200, 0x61, 100, 0x80, 0x14, 0x62, 1, 0x80, 0x24]);
    run(&mut cpu, 3);
    assert_eq!(cpu.v[0], 44);
    assert_eq!(cpu.v[0xF], 1);
    run(&mut cpu, 2);
    assert_eq!(cpu.v[0], 45);
    assert_eq!(cpu.v[0xF], 0);
}

#[test]
fn subtract_with_borrow() {
    let mut cpu = machine(&[0x60, 10, 0x61, 3, 0x80, 0x15, 0x82, 0x17, 0x83, 0x05]);
    run(&mut cpu, 3);
    assert_eq!(cpu.v[0], 7);
    assert_eq!(cpu.v[0xF], 1); // no borrow
    run(&mut cpu, 1);
    // V2 = V1 - V2 = 3 - 0
    assert_eq!(cpu.v[2], 3);
    assert_eq!(cpu.v[0xF], 1);
    run(&mut cpu, 1);
    // V3 = V3 - V0 = 0 - 7 wraps, borrow
    assert_eq!(cpu.v[3], 249);
    assert_eq!(cpu.v[0xF], 0);
}

#[test]
fn subtract_reversed_with_borrow() {
    let mut cpu = machine(&[0x60, 10, 0x61, 3, 0x80, 0x17]);
    run(&mut cpu, 3);
    // V0 = V1 - V0 = 3 - 10
    assert_eq!(cpu.v[0], 249);
    assert_eq!(cpu.v[0xF], 0);
}

#[test]
fn shifts_report_the_lost_bit() {
    let mut cpu = machine(&[0x60, 0x81, 0x80, 0x06, 0x61, 0x81, 0x81, 0x0E, 0x62, 0x40, 0x82, 0x0E]);
    run(&mut cpu, 2);
    assert_eq!(cpu.v[0], 0x40);
    assert_eq!(cpu.v[0xF], 1);
    run(&mut cpu, 2);
    assert_eq!(cpu.v[1], 0x02);
    assert_eq!(cpu.v[0xF], 1);
    run(&mut cpu, 2);
    assert_eq!(cpu.v[2], 0x80);
    assert_eq!(cpu.v[0xF], 0);
}

#[test]
fn flag_register_as_operand_keeps_the_flag() {
    // 8F14 with VF = 0xFF, V1 = 1: the sum 0 is overwritten by the carry 1.
    let mut cpu = machine(&[0x6F, 0xFF, 0x61, 0x01, 0x8F, 0x14]);
    run(&mut cpu, 3);
    assert_eq!(cpu.v[0xF], 1);
    // 8F06 with VF = 3: VF gets the low bit 1, then is shifted to 0.
    let mut cpu = machine(&[0x6F, 0x03, 0x8F, 0x06]);
    run(&mut cpu, 2);
    assert_eq!(cpu.v[0xF], 0);
}

#[test]
fn index_register_instructions() {
    let mut cpu = machine(&[0xA1, 0x23, 0x60, 0x10, 0xF0, 0x1E]);
    run(&mut cpu, 3);
    assert_eq!(cpu.i, 0x133);
    cpu.i = 0xFFFF;
    cpu.v[0] = 2;
    cpu.memory[0x206] = 0xF0;
    cpu.memory[0x207] = 0x1E;
    run(&mut cpu, 1);
    assert_eq!(cpu.i, 1); // wraps at 16 bits
}

#[test]
fn jump_with_offset() {
    let mut cpu = machine(&[0x60, 0x10, 0xB3, 0x00]);
    run(&mut cpu, 2);
    assert_eq!(cpu.pc, 0x310);
}

#[test]
fn random_is_masked() {
    let mut cpu = machine(&[0xC5, 0x0F]);
    cpu.emu_cycle_with(0xAB);
    assert_eq!(cpu.v[5], 0x0B);
    assert_eq!(cpu.pc, 0x202);
    for _ in 0..50 {
        let mut cpu = machine(&[0xC5, 0x0F]);
        cpu.emu_cycle();
        assert_eq!(cpu.v[5] & 0xF0, 0);
        assert_eq!(cpu.pc, 0x202);
    }
}

#[test]
fn emu_cycle_without_random_instruction() {
    let mut cpu = machine(&[0x6A, 0x42]);
    cpu.emu_cycle();
    assert_eq!(cpu.v[0xA], 0x42);
    assert_eq!(cpu.pc, 0x202);
}

#[test]
fn draw_font_digit_and_collide() {
    // I = glyph of 0, draw at (0, 0), then draw again.
    let mut cpu = machine(&[0x60, 0x00, 0xF0, 0x29, 0xD0, 0x05, 0xD0, 0x05]);
    run(&mut cpu, 3);
    assert!(cpu.screen_update);
    assert_eq!(cpu.v[0xF], 0);
    // 0xF0: four lit pixels at the left of row 0
    assert!(cpu.display[0] && cpu.display[1] && cpu.display[2] && cpu.display[3]);
    assert!(!cpu.display[4]);
    // 0x90 in row 1
    assert!(cpu.display[64] && !cpu.display[65] && !cpu.display[66] && cpu.display[67]);
    assert_eq!(cpu.display.iter().filter(|p| **p).count(), 14);
    run(&mut cpu, 1);
    assert_eq!(cpu.v[0xF], 1);
    assert!(cpu.display.iter().all(|p| !*p));
}

#[test]
fn draw_wraps_around_edges() {
    // V0 = 62, V1 = 31, I = glyph of 0, draw two rows
    let mut cpu = machine(&[0x60, 62, 0x61, 31, 0xA0, 0x00, 0xD0, 0x12]);
    run(&mut cpu, 4);
    // row 0 (0xF0) at y = 31: x = 62, 63, 0, 1
    assert!(cpu.display[31 * 64 + 62]);
    assert!(cpu.display[31 * 64 + 63]);
    assert!(cpu.display[31 * 64]);
    assert!(cpu.display[31 * 64 + 1]);
    assert!(!cpu.display[31 * 64 + 2]);
    // row 1 (0x90) wraps to y = 0: x = 62 and 1
    assert!(cpu.display[62]);
    assert!(!cpu.display[63]);
    assert!(!cpu.display[0]);
    assert!(cpu.display[1]);
    assert_eq!(cpu.v[0xF], 0);
}

#[test]
fn draw_zero_rows_sets_flag_to_zero() {
    let mut cpu = machine(&[0x6F, 0x07, 0xD0, 0x00]);
    run(&mut cpu, 2);
    assert_eq!(cpu.v[0xF], 0);
    assert!(cpu.screen_update);
    assert!(cpu.display.iter().all(|p| !*p));
}

#[test]
fn clear_screen() {
    let mut cpu = machine(&[0xD0, 0x05, 0x00, 0xE0]);
    run(&mut cpu, 1);
    cpu.screen_update = false;
    run(&mut cpu, 1);
    assert!(cpu.display.iter().all(|p| !*p));
    assert!(cpu.screen_update);
    assert_eq!(cpu.pc, 0x204);
}

#[test]
fn key_skips() {
    let mut cpu = machine(&[0x60, 0x0A, 0xE0, 0x9E, 0xE0, 0xA1, 0x00, 0x00, 0xE0, 0x9E]);
    run(&mut cpu, 2);
    assert_eq!(cpu.pc, 0x204); // key A up: no skip
    run(&mut cpu, 1);
    assert_eq!(cpu.pc, 0x208); // key A up: EXA1 skips
    cpu.press_key(0xA);
    run(&mut cpu, 1);
    assert_eq!(cpu.pc, 0x20C); // key A down: EX9E skips
}

#[test]
fn wait_for_key() {
    let mut cpu = machine(&[0xF3, 0x0A, 0x00, 0x00]);
    run(&mut cpu, 1);
    assert!(cpu.blocked);
    assert_eq!(cpu.key_register, Some(3));
    assert_eq!(cpu.pc, 0x200);
    run(&mut cpu, 5);
    assert_eq!(cpu.pc, 0x200);
    cpu.press_key(0xB);
    assert!(!cpu.blocked);
    assert_eq!(cpu.key_register, None);
    assert_eq!(cpu.v[3], 0xB);
    assert_eq!(cpu.pc, 0x202);
    assert!(cpu.keys[0xB]);
}

#[test]
fn press_and_release_keys() {
    let mut cpu = Cpu::new();
    cpu.press_key(4);
    assert!(cpu.keys[4]);
    assert_eq!(cpu.pc, 0x200);
    cpu.release_key(4);
    assert!(!cpu.keys[4]);
    cpu.release_key(5);
    assert!(!cpu.keys[5]);
}

#[test]
fn timers() {
    let mut cpu = machine(&[0x60, 0x02, 0xF0, 0x15, 0xF0, 0x18, 0xF1, 0x07]);
    run(&mut cpu, 3);
    assert_eq!(cpu.delay_timer, 2);
    assert_eq!(cpu.sound_timer, 2);
    cpu.update_timers();
    run(&mut cpu, 1);
    assert_eq!(cpu.v[1], 1);
    cpu.update_timers();
    cpu.update_timers();
    assert_eq!(cpu.delay_timer, 0);
    assert_eq!(cpu.sound_timer, 0);
}

#[test]
fn timers_count_independently() {
    let mut cpu = Cpu::new();
    cpu.delay_timer = 1;
    cpu.sound_timer = 3;
    cpu.update_timers();
    assert_eq!((cpu.delay_timer, cpu.sound_timer), (0, 2));
    cpu.update_timers();
    assert_eq!((cpu.delay_timer, cpu.sound_timer), (0, 1));
}

#[test]
fn font_address() {
    let mut cpu = machine(&[0x6E, 0x0F, 0xFE, 0x29]);
    run(&mut cpu, 2);
    assert_eq!(cpu.i, 75);
    assert_eq!(&cpu.memory[75..80], &[0xF0, 0x80, 0xF0, 0x80, 0x80]);
}

#[test]
fn binary_coded_decimal() {
    let mut cpu = machine(&[0x62, 254, 0xA3, 0x00, 0xF2, 0x33]);
    run(&mut cpu, 3);
    assert_eq!(&cpu.memory[0x300..0x303], &[2, 5, 4]);
    let mut cpu = machine(&[0x62, 7, 0xA3, 0x00, 0xF2, 0x33]);
    run(&mut cpu, 3);
    assert_eq!(&cpu.memory[0x300..0x303], &[0, 0, 7]);
}

#[test]
fn store_and_load_registers() {
    let mut cpu = machine(&[
        0x60, 1, 0x61, 2, 0x62, 3, 0x63, 4, 0xA3, 0x00, 0xF2, 0x55, 0x60, 0, 0x61, 0, 0x62, 0,
        0x63, 0, 0xF2, 0x65,
    ]);
    run(&mut cpu, 6);
    assert_eq!(&cpu.memory[0x300..0x304], &[1, 2, 3, 0]);
    assert_eq!(cpu.i, 0x300);
    run(&mut cpu, 5);
    assert_eq!(&cpu.v[..4], &[1, 2, 3, 0]);
    assert_eq!(cpu.i, 0x300);
}

#[test]
fn unknown_opcode_is_skipped() {
    let mut cpu = machine(&[0x0F, 0xFF, 0x51, 0x21, 0x80, 0x08, 0xFF, 0xFF, 0xE1, 0x00]);
    let before = cpu.v;
    run(&mut cpu, 5);
    assert_eq!(cpu.pc, 0x20A);
    assert_eq!(cpu.v, before);
}

#[test]
fn reset_restores_power_on_state() {
    let mut cpu = machine(&[0x60, 0x05, 0xA2, 0x22, 0xD0, 0x05, 0x22, 0x20]);
    run(&mut cpu, 4);
    cpu.delay_timer = 9;
    cpu.press_key(1);
    cpu.paused = true;
    cpu.reset();
    let fresh = Cpu::new();
    assert_eq!(cpu.memory, fresh.memory);
    assert_eq!(cpu.v, fresh.v);
    assert_eq!(cpu.stack, fresh.stack);
    assert_eq!(cpu.keys, fresh.keys);
    assert_eq!(cpu.display, fresh.display);
    assert_eq!((cpu.i, cpu.pc, cpu.sp), (0, 0x200, 0));
    assert_eq!((cpu.delay_timer, cpu.sound_timer), (0, 0));
    assert!(cpu.screen_update);
    assert!(!cpu.paused && !cpu.blocked);
    assert_eq!(cpu.key_register, None);
}

#[test]
fn reset_keeps_memory_below_program_start() {
    let mut cpu = Cpu::new();
    cpu.memory[0x100] = 0x77;
    cpu.memory[0x300] = 0x77;
    cpu.memory[0] = 0;
    cpu.reset();
    assert_eq!(cpu.memory[0x100], 0x77);
    assert_eq!(cpu.memory[0x300], 0);
    assert_eq!(cpu.memory[0], 0xF0);
}

#[test]
fn reset_releases_a_waiting_machine() {
    let mut cpu = machine(&[0xF0, 0x0A]);
    run(&mut cpu, 1);
    assert!(cpu.blocked);
    cpu.reset();
    assert!(!cpu.blocked);
    assert_eq!(cpu.key_register, None);
}

#[test]
fn lit_pixels_in_row_major_order() {
    let mut cpu = Cpu::new();
    assert!(cpu.lit_pixels().is_empty());
    cpu.display[64 * 2 + 5] = true;
    cpu.display[3] = true;
    cpu.display[2047] = true;
    assert_eq!(cpu.lit_pixels(), vec![(3, 0), (5, 2), (63, 31)]);
}

#[test]
fn cycle_limits() {
    let mut cpu = Cpu::new();
    cpu.pc = 4095;
    assert!(!cpu.can_cycle());
    cpu.pc = 4094;
    assert!(cpu.can_cycle());

    // return with an empty stack
    let cpu = machine(&[0x00, 0xEE]);
    assert!(!cpu.can_cycle());

    // call with a full stack
    let mut cpu = machine(&[0x22, 0x00]);
    for _ in 0..16 {
        run(&mut cpu, 1);
    }
    assert_eq!(cpu.sp, 16);
    assert!(!cpu.can_cycle());

    // sprite reading past the end of memory
    let mut cpu = machine(&[0xD0, 0x05]);
    cpu.i = 4092;
    assert!(!cpu.can_cycle());
    cpu.i = 4091;
    assert!(cpu.can_cycle());

    // key number out of range
    let mut cpu = machine(&[0xE0, 0x9E]);
    cpu.v[0] = 16;
    assert!(!cpu.can_cycle());

    // decimal digits past the end of memory
    let mut cpu = machine(&[0xF0, 0x33]);
    cpu.i = 4094;
    assert!(!cpu.can_cycle());

    // register store past the end of memory
    let mut cpu = machine(&[0xF3, 0x55]);
    cpu.i = 4093;
    assert!(!cpu.can_cycle());
    cpu.i = 4092;
    assert!(cpu.can_cycle());

    // a waiting machine can always cycle
    let mut cpu = Cpu::new();
    cpu.pc = 4095;
    cpu.blocked = true;
    cpu.key_register = Some(0);
    assert!(cpu.can_cycle());
}

#[test]
fn reset_twice_is_reset_once() {
    let prepare = || {
        let mut cpu = machine(&[0x60, 0x05, 0xF0, 0x29]);
        run(&mut cpu, 2);
        cpu.memory[0x150] = 0x33;
        cpu
    };
    let mut once = prepare();
    let mut twice = prepare();
    once.reset();
    twice.reset();
    twice.reset();
    assert_eq!(once.memory, twice.memory);
    assert_eq!(once.v, twice.v);
    assert_eq!((once.i, once.pc, once.sp), (twice.i, twice.pc, twice.sp));
    assert_eq!(once.screen_update, twice.screen_update);
    assert_eq!(once.memory[0x150], 0x33);
}

#[test]
fn paused_machine_does_not_run() {
    let mut cpu = machine(&[0x12, 0x34]);
    cpu.paused = true;
    assert!(cpu.can_cycle());
    cpu.emu_cycle();
    cpu.emu_cycle_with(9);
    assert_eq!(cpu.pc, 0x200);
    cpu.paused = false;
    cpu.emu_cycle();
    assert_eq!(cpu.pc, 0x234);
}

#[test]
fn paused_machine_still_takes_keys_and_ticks() {
    let mut cpu = machine(&[0xF2, 0x0A]);
    run(&mut cpu, 1);
    cpu.paused = true;
    cpu.delay_timer = 3;
    cpu.update_timers();
    assert_eq!(cpu.delay_timer, 2);
    cpu.press_key(7);
    assert_eq!(cpu.v[2], 7);
    assert_eq!(cpu.pc, 0x202);
}

#[test]
fn unknown_opcodes_are_reported() {
    for op in [0x0FFFu16, 0x5121, 0x8008, 0x800F, 0xE100, 0xFFFF, 0xF000, 0x0000] {
        assert!(!Cpu::is_known_opcode(op), "{:#06X}", op);
    }
    for op in [
        0x00E0u16, 0x00EE, 0x1234, 0x2345, 0x3A01, 0x4B02, 0x5120, 0x6C03, 0x7D04, 0x8120,
        0x8121, 0x8122, 0x8123, 0x8124, 0x8125, 0x8126, 0x8127, 0x812E, 0x9120, 0xA123, 0xB456,
        0xC7FF, 0xD125, 0xE39E, 0xE3A1, 0xF307, 0xF30A, 0xF315, 0xF318, 0xF31E, 0xF329, 0xF333,
        0xF355, 0xF365,
    ] {
        assert!(Cpu::is_known_opcode(op), "{:#06X}", op);
    }
    let mut cpu = machine(&[0x51, 0x21, 0x60, 0x01]);
    assert_eq!(cpu.next_unknown_opcode(), Some(0x5121));
    assert_eq!(format!("Opcode not found: {:#06X}", 0x5121), "Opcode not found: 0x5121");
    run(&mut cpu, 1);
    assert_eq!(cpu.pc, 0x202);
    assert_eq!(cpu.next_unknown_opcode(), None);
    cpu.memory[0x202] = 0xFF;
    cpu.paused = true;
    assert_eq!(cpu.next_unknown_opcode(), None);
}
