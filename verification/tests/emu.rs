use chip8_core::Emu;
use chip8_core::EmuError;

#[test]
fn power_on_state() {
    let e = Emu::new();
    assert_eq!(e.get_pc(), 0x200);
    for i in 0..16 {
        assert_eq!(e.get_register(i), 0);
    }
    assert_eq!(e.get_i_reg(), 0);
    assert_eq!(e.get_delay_timer(), 0);
    assert_eq!(e.get_sound_timer(), 0);
    let display = e.get_display();
    assert_eq!(display.len(), 2048);
    assert!(display.iter().all(|p| !p));
    // font glyphs at the bottom of memory
    assert_eq!(e.read_ram(0), 0xF0);
    assert_eq!(e.read_ram(5), 0x20);
    assert_eq!(e.read_ram(79), 0x80);
    // everything above the font is zero
    assert_eq!(e.read_ram(80), 0);
    assert_eq!(e.read_ram(0x200), 0);
    assert_eq!(e.read_ram(4095), 0);
}

#[test]
fn reset_equals_construction() {
    let fresh = Emu::new();
    let mut used = Emu::new();
    used.load(&[0x60, 0x2A, 0x61, 0x07, 0xA2, 0x00, 0xF1, 0x55]).unwrap();
    for _ in 0..4 {
        used.tick().unwrap();
    }
    used.keypress(3, true).unwrap();
    used.tick_timers();
    used.reset();
    assert_eq!(used.get_pc(), fresh.get_pc());
    assert_eq!(used.get_i_reg(), fresh.get_i_reg());
    assert_eq!(used.get_delay_timer(), fresh.get_delay_timer());
    assert_eq!(used.get_sound_timer(), fresh.get_sound_timer());
    for i in 0..16 {
        assert_eq!(used.get_register(i), fresh.get_register(i));
    }
    for addr in 0..4096 {
        assert_eq!(used.read_ram(addr), fresh.read_ram(addr));
    }
    assert_eq!(used.get_display(), fresh.get_display());
}

#[test]
fn end_to_end_add() {
    let mut e = Emu::new();
    e.load(&[0x60, 0x05, 0x61, 0x03, 0x80, 0x14]).unwrap();
    for _ in 0..3 {
        e.tick().unwrap();
    }
    assert_eq!(e.get_register(0), 8);
    assert_eq!(e.get_register(0xF), 0);
}

#[test]
fn add_with_carry() {
    let mut e = Emu::new();
    e.load(&[0x60, 200, 0x61, 100, 0x80, 0x14]).unwrap();
    for _ in 0..3 {
        e.tick().unwrap();
    }
    assert_eq!(e.get_register(0), 44);
    assert_eq!(e.get_register(0xF), 1);
}

#[test]
fn sub_without_borrow() {
    let mut e = Emu::new();
    e.load(&[0x60, 5, 0x61, 3, 0x80, 0x15]).unwrap();
    for _ in 0..3 {
        e.tick().unwrap();
    }
    assert_eq!(e.get_register(0), 2);
    assert_eq!(e.get_register(0xF), 1);
}

#[test]
fn sub_with_borrow() {
    let mut e = Emu::new();
    e.load(&[0x60, 3, 0x61, 5, 0x80, 0x15]).unwrap();
    for _ in 0..3 {
        e.tick().unwrap();
    }
    assert_eq!(e.get_register(0), 254);
    assert_eq!(e.get_register(0xF), 0);
}

#[test]
fn shift_right_flag() {
    // the Y nibble is 0xF here and must not matter
    let mut e = Emu::new();
    e.load(&[0x60, 0x05, 0x80, 0xF6]).unwrap();
    e.tick().unwrap();
    e.tick().unwrap();
    assert_eq!(e.get_register(0), 2);
    assert_eq!(e.get_register(0xF), 1);
}

#[test]
fn shift_left_flag() {
    // the Y nibble is 0x3 here and must not matter
    let mut e = Emu::new();
    e.load(&[0x60, 0x81, 0x80, 0x3E]).unwrap();
    e.tick().unwrap();
    e.tick().unwrap();
    assert_eq!(e.get_register(0), 2);
    assert_eq!(e.get_register(0xF), 1);
}

#[test]
fn add_immediate_wraps_without_flag() {
    let mut e = Emu::new();
    e.load(&[0x60, 0xFF, 0x70, 0x02]).unwrap();
    e.tick().unwrap();
    e.tick().unwrap();
    assert_eq!(e.get_register(0), 1);
    assert_eq!(e.get_register(0xF), 0);
}

#[test]
fn logic_ops() {
    let mut e = Emu::new();
    e.load(&[
        0x60, 0b1100, 0x61, 0b1010, // v0, v1
        0x82, 0x00, // v2 = v0
        0x82, 0x11, // v2 |= v1
        0x63, 0b1100, 0x83, 0x12, // v3 = v0 & v1
        0x64, 0b1100, 0x84, 0x13, // v4 = v0 ^ v1
    ]).unwrap();
    for _ in 0..8 {
        e.tick().unwrap();
    }
    assert_eq!(e.get_register(2), 0b1110);
    assert_eq!(e.get_register(3), 0b1000);
    assert_eq!(e.get_register(4), 0b0110);
}

#[test]
fn skip_if_equal_immediate() {
    // v0 = 7; skip the jump that would loop; v1 = 1
    let mut e = Emu::new();
    e.load(&[0x60, 0x07, 0x30, 0x07, 0x00, 0x00, 0x61, 0x01]).unwrap();
    for _ in 0..3 {
        e.tick().unwrap();
    }
    assert_eq!(e.get_pc(), 0x208);
    assert_eq!(e.get_register(1), 1);
}

#[test]
fn skip_if_registers_differ() {
    let mut e = Emu::new();
    e.load(&[0x60, 0x07, 0x61, 0x07, 0x90, 0x10, 0x62, 0x01]).unwrap();
    for _ in 0..4 {
        e.tick().unwrap();
    }
    // equal registers: no skip, so v2 was written
    assert_eq!(e.get_register(2), 1);
}

#[test]
fn jump_with_offset() {
    let mut e = Emu::new();
    e.load(&[0x60, 0x04, 0xB2, 0x00]).unwrap();
    e.tick().unwrap();
    e.tick().unwrap();
    assert_eq!(e.get_pc(), 0x204);
}

#[test]
fn draw_wraps_columns() {
    // I = 0x20A (sprite data), v0 = 63, v1 = 0, draw 5 rows of 0xFF
    let mut e = Emu::new();
    e.load(&[
        0xA2, 0x0A, 0x60, 0x3F, 0x61, 0x00, 0xD0, 0x15, 0x00, 0x00,
        0xFF, 0xFF, 0xFF, 0xFF, 0xFF,
    ]).unwrap();
    for _ in 0..4 {
        e.tick().unwrap();
    }
    assert_eq!(e.get_register(0xF), 0);
    let display = e.get_display();
    for row in 0..5 {
        // column 63, then wrapped columns 0..=6
        assert!(display[row * 64 + 63]);
        for col in 0..7 {
            assert!(display[row * 64 + col]);
        }
        assert!(!display[row * 64 + 7]);
    }
    // rows below the sprite stay clear
    for col in 0..64 {
        assert!(!display[5 * 64 + col]);
    }
}

#[test]
fn draw_twice_restores() {
    let mut e = Emu::new();
    e.load(&[
        0xA2, 0x0C, 0x60, 0x3F, 0x61, 0x00, 0xD0, 0x15, 0xD0, 0x15, 0x00, 0x00,
        0xFF, 0xFF, 0xFF, 0xFF, 0xFF,
    ]).unwrap();
    for _ in 0..4 {
        e.tick().unwrap();
    }
    // first draw: fresh pixels, no collision
    assert_eq!(e.get_register(0xF), 0);
    assert!(e.get_display().iter().any(|p| *p));
    e.tick().unwrap();
    // second identical draw: every pixel toggled back, collision reported
    assert_eq!(e.get_register(0xF), 1);
    assert!(e.get_display().iter().all(|p| !p));
}

#[test]
fn call_and_return() {
    let mut e = Emu::new();
    e.load(&[0x22, 0x04, 0x00, 0x00, 0x00, 0xEE]).unwrap();
    e.tick().unwrap();
    assert_eq!(e.get_pc(), 0x204);
    e.tick().unwrap();
    assert_eq!(e.get_pc(), 0x202);
}

#[test]
fn wait_for_key_blocks_then_takes_lowest() {
    let mut e = Emu::new();
    e.load(&[0xF5, 0x0A]).unwrap();
    e.tick().unwrap();
    assert_eq!(e.get_pc(), 0x200);
    e.tick().unwrap();
    assert_eq!(e.get_pc(), 0x200);
    e.keypress(7, true).unwrap();
    e.keypress(3, true).unwrap();
    e.tick().unwrap();
    assert_eq!(e.get_pc(), 0x202);
    assert_eq!(e.get_register(5), 3);
}

#[test]
fn key_skip_instructions() {
    let mut e = Emu::new();
    e.load(&[0x60, 0x04, 0xE0, 0x9E, 0x00, 0x00, 0x61, 0x01]).unwrap();
    e.keypress(4, true).unwrap();
    for _ in 0..3 {
        e.tick().unwrap();
    }
    // key 4 pressed: the 0x0000 word was skipped and v1 written
    assert_eq!(e.get_register(1), 1);

    let mut e2 = Emu::new();
    e2.load(&[0x60, 0x04, 0xE0, 0xA1, 0x00, 0x00, 0x61, 0x01]).unwrap();
    e2.keypress(4, true).unwrap();
    for _ in 0..3 {
        e2.tick().unwrap();
    }
    // key 4 pressed: skip-if-not-pressed does not skip, v1 still zero
    assert_eq!(e2.get_register(1), 0);
}

#[test]
fn timers_set_read_and_floor() {
    let mut e = Emu::new();
    e.load(&[0x60, 0x05, 0xF0, 0x15, 0xF0, 0x18, 0xF1, 0x07]).unwrap();
    for _ in 0..3 {
        e.tick().unwrap();
    }
    assert_eq!(e.get_delay_timer(), 5);
    assert_eq!(e.get_sound_timer(), 5);
    e.tick_timers();
    assert_eq!(e.get_delay_timer(), 4);
    assert_eq!(e.get_sound_timer(), 4);
    // the delay timer is readable from a program
    e.tick().unwrap();
    assert_eq!(e.get_register(1), 4);
    for _ in 0..10 {
        e.tick_timers();
    }
    assert_eq!(e.get_delay_timer(), 0);
    assert_eq!(e.get_sound_timer(), 0);
}

#[test]
fn font_offset() {
    let mut e = Emu::new();
    e.load(&[0x60, 0x27, 0xF0, 0x29]).unwrap();
    e.tick().unwrap();
    e.tick().unwrap();
    // low nibble 7, five bytes per glyph
    assert_eq!(e.get_i_reg(), 35);
}

#[test]
fn index_register_add() {
    let mut e = Emu::new();
    e.load(&[0xA0, 0x10, 0x60, 0xFF, 0xF0, 0x1E]).unwrap();
    for _ in 0..3 {
        e.tick().unwrap();
    }
    assert_eq!(e.get_i_reg(), 0x10F);
}

#[test]
fn bcd_decomposition() {
    let mut e = Emu::new();
    e.load(&[0x60, 0x9B, 0xA3, 0x00, 0xF0, 0x33]).unwrap();
    for _ in 0..3 {
        e.tick().unwrap();
    }
    assert_eq!(e.read_ram(0x300), 1);
    assert_eq!(e.read_ram(0x301), 5);
    assert_eq!(e.read_ram(0x302), 5);
}

#[test]
fn store_and_load_registers() {
    let mut e = Emu::new();
    e.load(&[
        0x60, 0x0A, 0x61, 0x14, 0xA3, 0x00, 0xF1, 0x55, // store v0..=v1 at 0x300
        0x60, 0x00, 0x61, 0x00, // clear them
        0xF1, 0x65, // load them back
    ]).unwrap();
    for _ in 0..4 {
        e.tick().unwrap();
    }
    assert_eq!(e.read_ram(0x300), 10);
    assert_eq!(e.read_ram(0x301), 20);
    assert_eq!(e.read_ram(0x302), 0);
    for _ in 0..3 {
        e.tick().unwrap();
    }
    assert_eq!(e.get_register(0), 10);
    assert_eq!(e.get_register(1), 20);
}

#[test]
fn random_masked() {
    let mut e = Emu::new();
    e.load(&[0xC0, 0x00, 0xC1, 0x0F]).unwrap();
    e.tick().unwrap();
    // any byte masked with 0 is 0
    assert_eq!(e.get_register(0), 0);
    e.tick().unwrap();
    assert!(e.get_register(1) < 16);
}

#[test]
fn unrecognized_opcode_faults() {
    let mut e = Emu::new();
    e.load(&[0x5F, 0xF1]).unwrap();
    assert_eq!(e.tick(), Err(EmuError::UnrecognizedOpcode(0x5FF1)));
}

#[test]
fn stack_underflow_faults() {
    let mut e = Emu::new();
    e.load(&[0x00, 0xEE]).unwrap();
    assert_eq!(e.tick(), Err(EmuError::StackUnderflow));
}

#[test]
fn stack_overflow_faults() {
    let mut e = Emu::new();
    // a call that calls itself: each step pushes one return address
    e.load(&[0x22, 0x00]).unwrap();
    for _ in 0..16 {
        assert_eq!(e.tick(), Ok(()));
    }
    assert_eq!(e.tick(), Err(EmuError::StackOverflow));
}

#[test]
fn program_counter_out_of_range_faults() {
    let mut e = Emu::new();
    e.load(&[0x1F, 0xFF]).unwrap();
    assert_eq!(e.tick(), Ok(()));
    assert_eq!(e.get_pc(), 0xFFF);
    assert_eq!(e.tick(), Err(EmuError::ProgramCounterOutOfRange));
}

#[test]
fn draw_beyond_memory_faults() {
    let mut e = Emu::new();
    e.load(&[0xAF, 0xFF, 0xD0, 0x05]).unwrap();
    assert_eq!(e.tick(), Ok(()));
    assert_eq!(e.tick(), Err(EmuError::MemoryOutOfRange));
}

#[test]
fn load_rejects_oversized_program() {
    let mut e = Emu::new();
    let too_big = vec![0u8; 3585];
    assert_eq!(e.load(&too_big), Err(EmuError::ProgramTooLarge));
    // nothing was copied
    assert_eq!(e.read_ram(0x200), 0);
    let max = vec![0xABu8; 3584];
    assert_eq!(e.load(&max), Ok(()));
    assert_eq!(e.read_ram(0x200), 0xAB);
    assert_eq!(e.read_ram(4095), 0xAB);
}

#[test]
fn key_skip_with_bad_register_faults() {
    let mut e = Emu::new();
    e.load(&[0x60, 0x20, 0xE0, 0x9E]).unwrap();
    assert_eq!(e.tick(), Ok(()));
    assert_eq!(e.tick(), Err(EmuError::KeyOutOfRange));
}

#[test]
fn store_beyond_memory_faults() {
    let mut e = Emu::new();
    e.load(&[0xAF, 0xFF, 0xF1, 0x55]).unwrap();
    assert_eq!(e.tick(), Ok(()));
    assert_eq!(e.tick(), Err(EmuError::MemoryOutOfRange));
}

#[test]
fn zero_word_is_a_no_op() {
    // fresh memory past the program is zero: 0x0000 executes as a no-op
    let mut e = Emu::new();
    e.tick().unwrap();
    assert_eq!(e.get_pc(), 0x202);
    for i in 0..16 {
        assert_eq!(e.get_register(i), 0);
    }
}

#[test]
fn keypress_rejects_bad_index() {
    let mut e = Emu::new();
    assert_eq!(e.keypress(16, true), Err(EmuError::KeyOutOfRange));
    assert_eq!(e.keypress(15, true), Ok(()));
}
