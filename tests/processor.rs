use chip8::{Fault, Processor};

fn machine_with(program: &[u8]) -> Processor {
    let mut p = Processor::new();
    p.load(program);
    p
}

fn run(p: &mut Processor, ticks: usize) {
    for _ in 0..ticks {
        assert!(p.tick().is_ok());
    }
}

#[test]
fn new_machine_is_at_power_on_state() {
    let p = Processor::new();
    assert_eq!(p.program_counter(), 0x200);
    assert_eq!(p.index_register(), 0);
    assert_eq!(p.stack_depth(), 0);
    assert_eq!(p.memory(0), 0xF0);
    assert_eq!(p.memory(5), 0x20);
    assert_eq!(p.memory(79), 0x80);
    assert_eq!(p.memory(80), 0);
    assert_eq!(p.memory(0x200), 0);
    for x in 0..16 {
        assert_eq!(p.register(x), 0);
    }
    assert!(p.vram().iter().all(|c| !c));
    assert!(!p.vram_updated());
}

#[test]
fn load_truncates_to_memory() {
    let program: Vec<u8> = (0..4000u32).map(|k| (k % 251) as u8 + 1).collect();
    let p = machine_with(&program);
    assert_eq!(p.memory(0x200), 1);
    assert_eq!(p.memory(0xFFF), (3583 % 251) as u8 + 1);
    assert_eq!(p.memory(0x1FF), 0);
}

#[test]
fn load_keeps_bytes_past_short_program() {
    let mut p = machine_with(&[1, 2, 3, 4]);
    p.load(&[9]);
    assert_eq!(p.memory(0x200), 9);
    assert_eq!(p.memory(0x201), 2);
}

#[test]
fn load_then_add_immediate() {
    let mut p = machine_with(&[0x60, 0x05, 0x70, 0x03]);
    run(&mut p, 2);
    assert_eq!(p.register(0), 8);
    assert_eq!(p.program_counter(), 0x204);
}

#[test]
fn add_immediate_wraps_without_flag() {
    let mut p = machine_with(&[0x60, 0xFF, 0x6F, 0x07, 0x70, 0x02]);
    run(&mut p, 3);
    assert_eq!(p.register(0), 1);
    assert_eq!(p.register(0xF), 7);
}

#[test]
fn add_with_carry_overflowing() {
    let mut p = machine_with(&[0x60, 200, 0x61, 100, 0x80, 0x14]);
    run(&mut p, 3);
    assert_eq!(p.register(0), 44);
    assert_eq!(p.register(0xF), 1);
}

#[test]
fn add_with_carry_without_overflow() {
    let mut p = machine_with(&[0x60, 100, 0x61, 155, 0x6F, 9, 0x80, 0x14]);
    run(&mut p, 4);
    assert_eq!(p.register(0), 255);
    assert_eq!(p.register(0xF), 0);
}

#[test]
fn add_with_carry_into_flag_register_keeps_flag() {
    let mut p = machine_with(&[0x6F, 200, 0x61, 100, 0x8F, 0x14]);
    run(&mut p, 3);
    assert_eq!(p.register(0xF), 1);
}

#[test]
fn sub_with_borrow_cases() {
    let mut p = machine_with(&[0x60, 10, 0x61, 3, 0x80, 0x15]);
    run(&mut p, 3);
    assert_eq!(p.register(0), 7);
    assert_eq!(p.register(0xF), 1);

    let mut p = machine_with(&[0x60, 3, 0x61, 10, 0x80, 0x15]);
    run(&mut p, 3);
    assert_eq!(p.register(0), 249);
    assert_eq!(p.register(0xF), 0);

    let mut p = machine_with(&[0x60, 5, 0x61, 5, 0x80, 0x15]);
    run(&mut p, 3);
    assert_eq!(p.register(0), 0);
    assert_eq!(p.register(0xF), 1);
}

#[test]
fn reverse_subtract() {
    let mut p = machine_with(&[0x60, 3, 0x61, 10, 0x80, 0x17]);
    run(&mut p, 3);
    assert_eq!(p.register(0), 7);
    assert_eq!(p.register(0xF), 1);

    let mut p = machine_with(&[0x60, 10, 0x61, 3, 0x80, 0x17]);
    run(&mut p, 3);
    assert_eq!(p.register(0), 249);
    assert_eq!(p.register(0xF), 0);
}

#[test]
fn bitwise_and_shifts() {
    let mut p = machine_with(&[
        0x60, 0b1100, 0x61, 0b1010, 0x82, 0x00, 0x82, 0x11, 0x83, 0x00, 0x83, 0x12, 0x84, 0x00,
        0x84, 0x13,
    ]);
    run(&mut p, 8);
    assert_eq!(p.register(2), 0b1110);
    assert_eq!(p.register(3), 0b1000);
    assert_eq!(p.register(4), 0b0110);

    let mut p = machine_with(&[0x60, 0x81, 0x80, 0x06]);
    run(&mut p, 2);
    assert_eq!(p.register(0), 0x40);
    assert_eq!(p.register(0xF), 1);

    let mut p = machine_with(&[0x60, 0x81, 0x80, 0x0E]);
    run(&mut p, 2);
    assert_eq!(p.register(0), 0x02);
    assert_eq!(p.register(0xF), 1);

    let mut p = machine_with(&[0x60, 0x40, 0x80, 0x0E]);
    run(&mut p, 2);
    assert_eq!(p.register(0), 0x80);
    assert_eq!(p.register(0xF), 0);
}

#[test]
fn skips_on_immediate_and_registers() {
    // 3xnn taken, 4xnn not taken
    let mut p = machine_with(&[0x65, 0x07, 0x35, 0x07]);
    run(&mut p, 2);
    assert_eq!(p.program_counter(), 0x206);
    let mut p = machine_with(&[0x65, 0x07, 0x45, 0x07]);
    run(&mut p, 2);
    assert_eq!(p.program_counter(), 0x204);
    // 5xy0 not taken advances normally, 9xy0 taken
    let mut p = machine_with(&[0x61, 0x01, 0x51, 0x20]);
    run(&mut p, 2);
    assert_eq!(p.program_counter(), 0x204);
    let mut p = machine_with(&[0x61, 0x01, 0x91, 0x20]);
    run(&mut p, 2);
    assert_eq!(p.program_counter(), 0x206);
}

#[test]
fn key_skips() {
    let mut p = machine_with(&[0x60, 0x03, 0xE0, 0x9E]);
    p.set_key(3, true);
    run(&mut p, 2);
    assert_eq!(p.program_counter(), 0x206);
    let mut p = machine_with(&[0x60, 0x03, 0xE0, 0xA1]);
    run(&mut p, 2);
    assert_eq!(p.program_counter(), 0x206);
}

#[test]
fn key_register_out_of_range_faults() {
    let mut p = machine_with(&[0x60, 0x10, 0xE0, 0x9E]);
    run(&mut p, 1);
    assert!(matches!(p.tick(), Err(Fault::KeyOutOfRange)));
    assert_eq!(p.program_counter(), 0x202);
}

#[test]
fn wait_for_key_blocks_then_stores_key() {
    let mut p = machine_with(&[0xF0, 0x0A]);
    run(&mut p, 5);
    assert_eq!(p.program_counter(), 0x200);
    p.set_key(3, true);
    run(&mut p, 1);
    assert_eq!(p.program_counter(), 0x202);
    assert_eq!(p.register(0), 3);
}

#[test]
fn wait_for_key_takes_lowest_pressed() {
    let mut p = machine_with(&[0xF5, 0x0A]);
    p.set_key(9, true);
    p.set_key(4, true);
    run(&mut p, 1);
    assert_eq!(p.register(5), 4);
}

#[test]
fn jumps_calls_and_returns() {
    let mut p = machine_with(&[0x12, 0x06]);
    run(&mut p, 1);
    assert_eq!(p.program_counter(), 0x206);

    let mut p = machine_with(&[0x22, 0x06, 0x00, 0x00, 0x00, 0x00, 0x00, 0xEE]);
    run(&mut p, 1);
    assert_eq!(p.program_counter(), 0x206);
    assert_eq!(p.stack_depth(), 1);
    run(&mut p, 1);
    assert_eq!(p.program_counter(), 0x202);
    assert_eq!(p.stack_depth(), 0);

    let mut p = machine_with(&[0x60, 0x02, 0xB3, 0x00]);
    run(&mut p, 2);
    assert_eq!(p.program_counter(), 0x302);
}

#[test]
fn seventeenth_nested_call_overflows() {
    let mut p = machine_with(&[0x22, 0x00]);
    run(&mut p, 16);
    assert_eq!(p.stack_depth(), 16);
    assert!(matches!(p.tick(), Err(Fault::StackOverflow)));
    assert_eq!(p.stack_depth(), 16);
}

#[test]
fn return_with_empty_stack_underflows() {
    let mut p = machine_with(&[0x00, 0xEE]);
    assert!(matches!(p.tick(), Err(Fault::StackUnderflow)));
}

#[test]
fn unknown_opcodes_fault() {
    for program in [[0x00u8, 0x00], [0x51, 0x21], [0x80, 0x1F], [0xF0, 0xFF], [0xE0, 0x00], [0x91, 0x21]] {
        let mut p = machine_with(&program);
        let expected = (program[0] as u16) << 8 | program[1] as u16;
        match p.tick() {
            Err(Fault::UnknownOpcode(op)) => assert_eq!(op, expected),
            _ => panic!("opcode {:04x} should be refused", expected),
        }
        assert_eq!(p.program_counter(), 0x200);
    }
}

#[test]
fn fetch_past_memory_faults() {
    let mut p = machine_with(&[0x1F, 0xFF]);
    run(&mut p, 1);
    assert!(matches!(p.tick(), Err(Fault::AddressOutOfRange)));
}

#[test]
fn bcd_of_234_and_7() {
    let mut p = machine_with(&[0x60, 234, 0xA3, 0x00, 0xF0, 0x33]);
    run(&mut p, 3);
    assert_eq!(p.memory(0x300), 2);
    assert_eq!(p.memory(0x301), 3);
    assert_eq!(p.memory(0x302), 4);
    assert_eq!(p.index_register(), 0x300);

    let mut p = machine_with(&[0x60, 7, 0xA3, 0x00, 0xF0, 0x33]);
    run(&mut p, 3);
    assert_eq!(p.memory(0x300), 0);
    assert_eq!(p.memory(0x301), 0);
    assert_eq!(p.memory(0x302), 7);
}

#[test]
fn bcd_past_memory_faults() {
    let mut p = machine_with(&[0xAF, 0xFE, 0xF0, 0x33]);
    run(&mut p, 1);
    assert!(matches!(p.tick(), Err(Fault::AddressOutOfRange)));
}

#[test]
fn register_block_store_and_load() {
    let mut p = machine_with(&[0x60, 1, 0x61, 2, 0x62, 3, 0xA3, 0x00, 0xF1, 0x55]);
    run(&mut p, 5);
    assert_eq!(p.memory(0x300), 1);
    assert_eq!(p.memory(0x301), 2);
    assert_eq!(p.memory(0x302), 0);
    assert_eq!(p.index_register(), 0x300);

    let mut p = machine_with(&[0xA2, 0x06, 0xF2, 0x65, 0x00, 0x00, 9, 8, 7, 6]);
    run(&mut p, 2);
    assert_eq!(p.register(0), 9);
    assert_eq!(p.register(1), 8);
    assert_eq!(p.register(2), 7);
    assert_eq!(p.register(3), 0);
    assert_eq!(p.index_register(), 0x206);
}

#[test]
fn timers_count_down_once_per_tick() {
    let mut p = machine_with(&[0x60, 0x05, 0xF0, 0x15, 0xF0, 0x18, 0xF1, 0x07]);
    run(&mut p, 2);
    assert_eq!(p.delay_timer(), 4);
    run(&mut p, 1);
    assert_eq!(p.sound_timer(), 4);
    assert_eq!(p.delay_timer(), 3);
    run(&mut p, 1);
    assert_eq!(p.register(1), 3);
    assert_eq!(p.delay_timer(), 2);
}

#[test]
fn glyph_address_and_index_add() {
    let mut p = machine_with(&[0x60, 0x0A, 0xF0, 0x29, 0xF0, 0x1E]);
    run(&mut p, 2);
    assert_eq!(p.index_register(), 50);
    run(&mut p, 1);
    assert_eq!(p.index_register(), 60);
}

#[test]
fn index_add_wraps_at_sixteen_bits() {
    let mut p = machine_with(&[0xAF, 0xFF, 0x60, 0xFF, 0xF0, 0x1E, 0x12, 0x04]);
    run(&mut p, 2 + 241 * 2);
    assert_eq!(p.index_register(), 14);
    assert_eq!(p.register(0xF), 0);
}

#[test]
fn random_and_masks_with_immediate() {
    let mut p = machine_with(&[0xC0, 0x00, 0xC1, 0xF0]);
    run(&mut p, 2);
    assert_eq!(p.register(0), 0);
    assert_eq!(p.register(1) & 0x0F, 0);

    let mut p = machine_with(&[0xC0, 0xF0]);
    assert!(p.step(0xAB).is_ok());
    assert_eq!(p.register(0), 0xA0);
}
