use chip8::cpu::Chip8;
use chip8::Chip8Error;

fn fresh() -> Chip8 {
    Chip8::new()
}

#[test]
fn ld_immediate_then_read_back() {
    let mut c = fresh();
    assert!(c.process_instruction_with(0x6537, 0).is_ok());
    assert_eq!(c.reg.read_register(5), 0x37);
    assert!(c.process_instruction_with(0x6aff, 0).is_ok());
    assert_eq!(c.reg.read_register(0xa), 0xff);
}

#[test]
fn add_immediate_wraps_without_flag() {
    let mut c = fresh();
    assert!(c.process_instruction_with(0x60ff, 0).is_ok());
    assert!(c.process_instruction_with(0x7002, 0).is_ok());
    assert_eq!(c.reg.read_register(0), 0x01);
    assert_eq!(c.reg.read_register(15), 0x00);
}

#[test]
fn add_registers_sets_carry() {
    let mut c = fresh();
    assert!(c.process_instruction_with(0x60ff, 0).is_ok());
    assert!(c.process_instruction_with(0x6102, 0).is_ok());
    assert!(c.process_instruction_with(0x8014, 0).is_ok());
    assert_eq!(c.reg.read_register(0), 0x01);
    assert_eq!(c.reg.read_register(15), 1);
}

#[test]
fn add_registers_clears_carry() {
    let mut c = fresh();
    assert!(c.process_instruction_with(0x6001, 0).is_ok());
    assert!(c.process_instruction_with(0x6101, 0).is_ok());
    assert!(c.process_instruction_with(0x8014, 0).is_ok());
    assert_eq!(c.reg.read_register(0), 0x02);
    assert_eq!(c.reg.read_register(15), 0);
}

#[test]
fn sub_registers_borrow_flag() {
    let mut c = fresh();
    assert!(c.process_instruction_with(0x6005, 0).is_ok());
    assert!(c.process_instruction_with(0x610a, 0).is_ok());
    assert!(c.process_instruction_with(0x8015, 0).is_ok());
    assert_eq!(c.reg.read_register(0), 0xfb);
    assert_eq!(c.reg.read_register(15), 0);
}

#[test]
fn sub_registers_no_borrow_flag() {
    let mut c = fresh();
    assert!(c.process_instruction_with(0x600a, 0).is_ok());
    assert!(c.process_instruction_with(0x6105, 0).is_ok());
    assert!(c.process_instruction_with(0x8015, 0).is_ok());
    assert_eq!(c.reg.read_register(0), 0x05);
    assert_eq!(c.reg.read_register(15), 1);
}

#[test]
fn call_and_ret_round_trip() {
    let mut c = fresh();
    // CALL 0x300 at the ROM origin, RET at the call target.
    let rom = vec![0x23, 0x00];
    assert!(c.store_program_data(&rom).is_ok());
    c.mem.write_byte(0x300, 0x00);
    c.mem.write_byte(0x301, 0xee);

    assert_eq!(c.reg.read_pc(), 0x200);
    assert!(c.cpu_cycle().is_ok());
    assert_eq!(c.reg.read_pc(), 0x300);
    assert_eq!(c.reg.read_sp(), 1);
    assert!(c.cpu_cycle().is_ok());
    assert_eq!(c.reg.read_pc(), 0x202);
    assert_eq!(c.reg.read_sp(), 0);
}

#[test]
fn font_address_for_digits() {
    let mut c = fresh();
    assert!(c.process_instruction_with(0x600a, 0).is_ok());
    assert!(c.process_instruction_with(0xf029, 0).is_ok());
    assert_eq!(c.reg.read_register_i(), 0x32);
    assert!(c.process_instruction_with(0x600f, 0).is_ok());
    assert!(c.process_instruction_with(0xf029, 0).is_ok());
    assert_eq!(c.reg.read_register_i(), 0x4b);
}

#[test]
fn bcd_stores_decimal_digits() {
    let mut c = fresh();
    assert!(c.process_instruction_with(0x639d, 0).is_ok()); // V3 = 157
    assert!(c.process_instruction_with(0xa400, 0).is_ok()); // I = 0x400
    assert!(c.process_instruction_with(0xf333, 0).is_ok());
    assert_eq!(c.mem.read_byte(0x400), 1);
    assert_eq!(c.mem.read_byte(0x401), 5);
    assert_eq!(c.mem.read_byte(0x402), 7);
}

#[test]
fn draw_twice_collides_and_clears() {
    let mut c = fresh();
    c.mem.write_byte(0x700, 0xff);
    assert!(c.process_instruction_with(0xa700, 0).is_ok()); // I = 0x700
    // V0 = 0, V1 = 0 already; draw one row at (0, 0).
    assert!(c.process_instruction_with(0xd011, 0).is_ok());
    assert_eq!(c.reg.read_register(15), 0);
    for x in 0..8 {
        assert!(c.display.pixel(x, 0));
    }
    assert!(c.display.is_dirty());

    // The second identical draw erases all eight pixels and reports it.
    assert!(c.process_instruction_with(0xd011, 0).is_ok());
    assert_eq!(c.reg.read_register(15), 1);
    for x in 0..8 {
        assert!(!c.display.pixel(x, 0));
    }
}

#[test]
fn draw_wraps_columns() {
    let mut c = fresh();
    c.mem.write_byte(0x700, 0xff);
    assert!(c.process_instruction_with(0xa700, 0).is_ok());
    assert!(c.process_instruction_with(0x603c, 0).is_ok()); // V0 = 60
    assert!(c.process_instruction_with(0x6100, 0).is_ok()); // V1 = 0
    assert!(c.process_instruction_with(0xd011, 0).is_ok());
    for x in 60..64 {
        assert!(c.display.pixel(x, 0));
    }
    for x in 0..4 {
        assert!(c.display.pixel(x, 0));
    }
    for x in 4..60 {
        assert!(!c.display.pixel(x, 0));
    }
}

#[test]
fn draw_wraps_rows() {
    let mut c = fresh();
    c.mem.write_byte(0x700, 0x80);
    c.mem.write_byte(0x701, 0x80);
    assert!(c.process_instruction_with(0xa700, 0).is_ok());
    assert!(c.process_instruction_with(0x6000, 0).is_ok()); // V0 = 0
    assert!(c.process_instruction_with(0x611f, 0).is_ok()); // V1 = 31
    assert!(c.process_instruction_with(0xd012, 0).is_ok());
    assert!(c.display.pixel(0, 31));
    assert!(c.display.pixel(0, 0));
}

#[test]
fn draw_coordinates_wrap_modulo_screen() {
    let mut c = fresh();
    c.mem.write_byte(0x700, 0x80); // single leftmost pixel
    assert!(c.process_instruction_with(0xa700, 0).is_ok());
    assert!(c.process_instruction_with(0x60c8, 0).is_ok()); // V0 = 200
    assert!(c.process_instruction_with(0x6164, 0).is_ok()); // V1 = 100
    assert!(c.process_instruction_with(0xd011, 0).is_ok());
    // 200 mod 64 = 8 and 100 mod 32 = 4.
    assert!(c.display.pixel(8, 4));
}

#[test]
fn cls_clears_and_marks_dirty() {
    let mut c = fresh();
    c.mem.write_byte(0x700, 0xff);
    assert!(c.process_instruction_with(0xa700, 0).is_ok());
    assert!(c.process_instruction_with(0xd011, 0).is_ok());
    c.display.mark_presented();
    assert!(!c.display.is_dirty());
    assert!(c.process_instruction_with(0x00e0, 0).is_ok());
    assert!(c.display.is_dirty());
    for x in 0..64 {
        for y in 0..32 {
            assert!(!c.display.pixel(x, y));
        }
    }
}

#[test]
fn jump_sets_pc() {
    let mut c = fresh();
    assert!(c.process_instruction_with(0x1abc, 0).is_ok());
    assert_eq!(c.reg.read_pc(), 0xabc);
}

#[test]
fn jump_with_offset_adds_v0() {
    let mut c = fresh();
    assert!(c.process_instruction_with(0x6005, 0).is_ok());
    assert!(c.process_instruction_with(0xb300, 0).is_ok());
    assert_eq!(c.reg.read_pc(), 0x305);
}

#[test]
fn skip_equal_immediate() {
    let mut c = fresh();
    assert!(c.process_instruction_with(0x6042, 0).is_ok());
    let pc = c.reg.read_pc();
    assert!(c.process_instruction_with(0x3042, 0).is_ok());
    assert_eq!(c.reg.read_pc(), pc + 2);
    assert!(c.process_instruction_with(0x3041, 0).is_ok());
    assert_eq!(c.reg.read_pc(), pc + 2);
}

#[test]
fn skip_not_equal_immediate() {
    let mut c = fresh();
    assert!(c.process_instruction_with(0x6042, 0).is_ok());
    let pc = c.reg.read_pc();
    assert!(c.process_instruction_with(0x4042, 0).is_ok());
    assert_eq!(c.reg.read_pc(), pc);
    assert!(c.process_instruction_with(0x4041, 0).is_ok());
    assert_eq!(c.reg.read_pc(), pc + 2);
}

#[test]
fn skip_on_register_compare() {
    let mut c = fresh();
    assert!(c.process_instruction_with(0x6207, 0).is_ok());
    assert!(c.process_instruction_with(0x6307, 0).is_ok());
    let pc = c.reg.read_pc();
    assert!(c.process_instruction_with(0x5230, 0).is_ok()); // equal: skip
    assert_eq!(c.reg.read_pc(), pc + 2);
    assert!(c.process_instruction_with(0x9230, 0).is_ok()); // equal: no skip
    assert_eq!(c.reg.read_pc(), pc + 2);
    assert!(c.process_instruction_with(0x6308, 0).is_ok());
    assert!(c.process_instruction_with(0x9230, 0).is_ok()); // differ: skip
    assert_eq!(c.reg.read_pc(), pc + 4);
}

#[test]
fn alu_copy_or_and_xor() {
    let mut c = fresh();
    assert!(c.process_instruction_with(0x600f, 0).is_ok()); // V0 = 0x0F
    assert!(c.process_instruction_with(0x613c, 0).is_ok()); // V1 = 0x3C
    assert!(c.process_instruction_with(0x8010, 0).is_ok()); // V0 = V1
    assert_eq!(c.reg.read_register(0), 0x3c);
    assert!(c.process_instruction_with(0x600f, 0).is_ok());
    assert!(c.process_instruction_with(0x8011, 0).is_ok()); // V0 |= V1
    assert_eq!(c.reg.read_register(0), 0x3f);
    assert!(c.process_instruction_with(0x600f, 0).is_ok());
    assert!(c.process_instruction_with(0x8012, 0).is_ok()); // V0 &= V1
    assert_eq!(c.reg.read_register(0), 0x0c);
    assert!(c.process_instruction_with(0x600f, 0).is_ok());
    assert!(c.process_instruction_with(0x8013, 0).is_ok()); // V0 ^= V1
    assert_eq!(c.reg.read_register(0), 0x33);
}

#[test]
fn alu_subn_reverse_subtraction() {
    let mut c = fresh();
    assert!(c.process_instruction_with(0x6003, 0).is_ok());
    assert!(c.process_instruction_with(0x610a, 0).is_ok());
    assert!(c.process_instruction_with(0x8017, 0).is_ok()); // V0 = V1 - V0
    assert_eq!(c.reg.read_register(0), 0x07);
    assert_eq!(c.reg.read_register(15), 1);
    assert!(c.process_instruction_with(0x600a, 0).is_ok());
    assert!(c.process_instruction_with(0x6103, 0).is_ok());
    assert!(c.process_instruction_with(0x8017, 0).is_ok());
    assert_eq!(c.reg.read_register(0), 0xf9);
    assert_eq!(c.reg.read_register(15), 0);
}

#[test]
fn alu_shifts_record_edge_bits() {
    let mut c = fresh();
    assert!(c.process_instruction_with(0x6005, 0).is_ok()); // V0 = 0b101
    assert!(c.process_instruction_with(0x8006, 0).is_ok()); // V0 >>= 1
    assert_eq!(c.reg.read_register(0), 0x02);
    assert_eq!(c.reg.read_register(15), 1);
    assert!(c.process_instruction_with(0x8006, 0).is_ok());
    assert_eq!(c.reg.read_register(0), 0x01);
    assert_eq!(c.reg.read_register(15), 0);

    assert!(c.process_instruction_with(0x60c1, 0).is_ok()); // V0 = 0b1100_0001
    assert!(c.process_instruction_with(0x800e, 0).is_ok()); // V0 <<= 1
    assert_eq!(c.reg.read_register(0), 0x82);
    assert_eq!(c.reg.read_register(15), 1);
    assert!(c.process_instruction_with(0x6041, 0).is_ok());
    assert!(c.process_instruction_with(0x800e, 0).is_ok());
    assert_eq!(c.reg.read_register(0), 0x82);
    assert_eq!(c.reg.read_register(15), 0);
}

#[test]
fn load_index_and_add_to_index() {
    let mut c = fresh();
    assert!(c.process_instruction_with(0xa123, 0).is_ok());
    assert_eq!(c.reg.read_register_i(), 0x123);
    assert!(c.process_instruction_with(0x6010, 0).is_ok());
    assert!(c.process_instruction_with(0xf01e, 0).is_ok());
    assert_eq!(c.reg.read_register_i(), 0x133);
}

#[test]
fn timer_transfer_opcodes() {
    let mut c = fresh();
    assert!(c.process_instruction_with(0x6030, 0).is_ok());
    assert!(c.process_instruction_with(0xf015, 0).is_ok()); // DT = V0
    assert_eq!(c.reg.read_delay_timer(), 0x30);
    assert!(c.process_instruction_with(0xf115, 0).is_ok()); // DT = V1 = 0
    assert_eq!(c.reg.read_delay_timer(), 0);
    assert!(c.process_instruction_with(0xf018, 0).is_ok()); // ST = V0
    assert_eq!(c.reg.read_sound_timer(), 0x30);
    assert!(c.process_instruction_with(0x6055, 0).is_ok());
    assert!(c.process_instruction_with(0xf015, 0).is_ok()); // DT = 0x55
    assert!(c.process_instruction_with(0xf107, 0).is_ok()); // V1 = DT
    assert_eq!(c.reg.read_register(1), 0x55);
}

#[test]
fn register_block_store_and_load() {
    let mut c = fresh();
    assert!(c.process_instruction_with(0x6011, 0).is_ok());
    assert!(c.process_instruction_with(0x6122, 0).is_ok());
    assert!(c.process_instruction_with(0x6233, 0).is_ok());
    assert!(c.process_instruction_with(0xa500, 0).is_ok());
    assert!(c.process_instruction_with(0xf255, 0).is_ok()); // store V0..V2
    assert_eq!(c.mem.read_byte(0x500), 0x11);
    assert_eq!(c.mem.read_byte(0x501), 0x22);
    assert_eq!(c.mem.read_byte(0x502), 0x33);
    assert_eq!(c.mem.read_byte(0x503), 0x00);

    assert!(c.process_instruction_with(0x6000, 0).is_ok());
    assert!(c.process_instruction_with(0x6100, 0).is_ok());
    assert!(c.process_instruction_with(0x6200, 0).is_ok());
    assert!(c.process_instruction_with(0xf265, 0).is_ok()); // load V0..V2
    assert_eq!(c.reg.read_register(0), 0x11);
    assert_eq!(c.reg.read_register(1), 0x22);
    assert_eq!(c.reg.read_register(2), 0x33);
}

#[test]
fn rnd_result_is_masked() {
    let mut c = fresh();
    // Whatever byte the generator supplies, the mask keeps only its low
    // nibble.
    for _ in 0..32 {
        assert!(c.process_instruction(0xc00f).is_ok());
        assert!(c.reg.read_register(0) <= 0x0f);
        assert!(c.process_instruction(0xc100).is_ok());
        assert_eq!(c.reg.read_register(1), 0);
    }
}

#[test]
fn rnd_with_explicit_byte() {
    let mut c = fresh();
    assert!(c.process_instruction_with(0xc0f0, 0xa5).is_ok());
    assert_eq!(c.reg.read_register(0), 0xa0);
}

#[test]
fn key_skip_opcodes() {
    let mut c = fresh();
    assert!(c.process_instruction_with(0x6007, 0).is_ok()); // V0 = key 7
    let pc = c.reg.read_pc();
    assert!(c.process_instruction_with(0xe09e, 0).is_ok()); // key up: no skip
    assert_eq!(c.reg.read_pc(), pc);
    assert!(c.process_instruction_with(0xe0a1, 0).is_ok()); // key up: skip
    assert_eq!(c.reg.read_pc(), pc + 2);

    c.keys.set(7, true);
    assert!(c.process_instruction_with(0xe09e, 0).is_ok()); // key down: skip
    assert_eq!(c.reg.read_pc(), pc + 4);
    assert!(c.process_instruction_with(0xe0a1, 0).is_ok()); // key down: no skip
    assert_eq!(c.reg.read_pc(), pc + 4);
}

#[test]
fn illegal_opcodes_are_fatal() {
    let mut c = fresh();
    assert_eq!(
        c.process_instruction_with(0x0123, 0),
        Err(Chip8Error::IllegalOpcode(0x0123))
    );
    assert_eq!(
        c.process_instruction_with(0x8008, 0),
        Err(Chip8Error::IllegalOpcode(0x8008))
    );
    assert_eq!(
        c.process_instruction_with(0xe000, 0),
        Err(Chip8Error::IllegalOpcode(0xe000))
    );
    assert_eq!(
        c.process_instruction_with(0xf0ff, 0),
        Err(Chip8Error::IllegalOpcode(0xf0ff))
    );
}

#[test]
fn stack_underflow_and_overflow_are_fatal() {
    let mut c = fresh();
    assert_eq!(
        c.process_instruction_with(0x00ee, 0),
        Err(Chip8Error::StackUnderflow)
    );
    for _ in 0..16 {
        assert!(c.process_instruction_with(0x2300, 0).is_ok());
    }
    assert_eq!(
        c.process_instruction_with(0x2300, 0),
        Err(Chip8Error::StackOverflow)
    );
}

#[test]
fn address_range_checks_are_fatal() {
    let mut c = fresh();
    assert!(c.process_instruction_with(0xaffe, 0).is_ok()); // I = 0xffe
    assert_eq!(
        c.process_instruction_with(0xf033, 0),
        Err(Chip8Error::AddressOutOfRange)
    );
    assert_eq!(
        c.process_instruction_with(0xf255, 0),
        Err(Chip8Error::AddressOutOfRange)
    );
    assert_eq!(
        c.process_instruction_with(0xf265, 0),
        Err(Chip8Error::AddressOutOfRange)
    );
    // One register fewer still fits: the store reaches exactly the last
    // byte of memory.
    assert!(c.process_instruction_with(0xf155, 0).is_ok());
    assert_eq!(
        c.process_instruction_with(0xd013, 0),
        Err(Chip8Error::AddressOutOfRange)
    );
}

#[test]
fn key_index_out_of_pad_is_fatal() {
    let mut c = fresh();
    assert!(c.process_instruction_with(0x6010, 0).is_ok()); // V0 = 16
    assert_eq!(
        c.process_instruction_with(0xe09e, 0),
        Err(Chip8Error::KeyOutOfRange)
    );
    assert_eq!(
        c.process_instruction_with(0xe0a1, 0),
        Err(Chip8Error::KeyOutOfRange)
    );
}

#[test]
fn fetch_past_end_of_memory_is_fatal() {
    let mut c = fresh();
    assert!(c.process_instruction_with(0x1fff, 0).is_ok()); // PC = 0xfff
    assert_eq!(c.cpu_cycle(), Err(Chip8Error::AddressOutOfRange));
    // The failed fetch changes nothing.
    assert_eq!(c.reg.read_pc(), 0xfff);
}

#[test]
fn fatal_execute_leaves_state_as_fetched() {
    let mut c = fresh();
    let rom = vec![0x00, 0xee]; // RET with an empty stack
    assert!(c.store_program_data(&rom).is_ok());
    assert_eq!(c.cpu_cycle(), Err(Chip8Error::StackUnderflow));
    assert_eq!(c.reg.read_pc(), 0x202);
    assert_eq!(c.reg.read_sp(), 0);
}
