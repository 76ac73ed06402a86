use chip8::{decode, init_chip, Chip8, Chip8Error, Instruction};

const FONT: [u8; 80] = [
    0xF0, 0x90, 0x90, 0x90, 0xF0, 0x20, 0x60, 0x20, 0x20, 0x70, 0xF0, 0x10, 0xF0, 0x80, 0xF0,
    0xF0, 0x10, 0xF0, 0x10, 0xF0, 0x90, 0x90, 0xF0, 0x10, 0x10, 0xF0, 0x80, 0xF0, 0x10, 0xF0,
    0xF0, 0x80, 0xF0, 0x90, 0xF0, 0xF0, 0x10, 0x20, 0x40, 0x40, 0xF0, 0x90, 0xF0, 0x90, 0xF0,
    0xF0, 0x90, 0xF0, 0x10, 0xF0, 0xF0, 0x90, 0xF0, 0x90, 0x90, 0xE0, 0x90, 0xE0, 0x90, 0xE0,
    0xF0, 0x80, 0x80, 0x80, 0xF0, 0xE0, 0x90, 0x90, 0x90, 0xE0, 0xF0, 0x80, 0xF0, 0x80, 0xF0,
    0xF0, 0x80, 0xF0, 0x80, 0x80,
];

fn registers(chip: &Chip8) -> [u8; 16] {
    [
        chip.get_v0(),
        chip.get_v1(),
        chip.get_v2(),
        chip.get_v3(),
        chip.get_v4(),
        chip.get_v5(),
        chip.get_v6(),
        chip.get_v7(),
        chip.get_v8(),
        chip.get_v9(),
        chip.get_va(),
        chip.get_vb(),
        chip.get_vc(),
        chip.get_vd(),
        chip.get_ve(),
        chip.get_vf(),
    ]
}

/// Reads `len` bytes of memory from `addr` through the load-registers instruction.
fn read_memory(chip: &mut Chip8, addr: u16, len: u16) -> Vec<u8> {
    chip.execute(0xA000 | addr).unwrap();
    chip.execute(0xF065 | ((len - 1) << 8)).unwrap();
    registers(chip)[..len as usize].to_vec()
}

#[test]
fn fresh_machine_state() {
    let mut chip = init_chip();
    assert_eq!(0x200, chip.get_pc());
    assert_eq!([0u8; 16], registers(&chip));
    assert_eq!(0, chip.get_delay_timer());
    assert_eq!(0, chip.get_sound_timer());
    assert_eq!(0, *chip.get_sp());
    assert_eq!(0, *chip.get_i_register());
    assert!(chip.get_screen().iter().all(|&p| p == 0));
    for start in (0..80u16).step_by(16) {
        let got = read_memory(&mut chip, start, 16);
        assert_eq!(&FONT[start as usize..start as usize + 16], &got[..]);
    }
    assert_eq!(vec![0u8; 16], read_memory(&mut chip, 0x200, 16));
}

#[test]
fn set_then_read_every_register() {
    let mut chip = init_chip();
    for x in 0..16u16 {
        chip.execute(0x6000 | (x << 8) | (0x30 + x)).unwrap();
    }
    for x in 0..16usize {
        assert_eq!(0x30 + x as u8, registers(&chip)[x]);
    }
}

#[test]
fn add_immediate_wraps_without_flag() {
    let mut chip = init_chip();
    chip.execute(0x6F07).unwrap();
    chip.execute(0x63FF).unwrap();
    chip.execute(0x7301).unwrap();
    assert_eq!(0x00, chip.get_v3());
    assert_eq!(0x07, chip.get_vf());
    chip.execute(0x73F0).unwrap();
    chip.execute(0x7320).unwrap();
    assert_eq!(0x10, chip.get_v3());
}

#[test]
fn add_with_carry_scenarios() {
    let mut chip = init_chip();
    chip.execute(0x61F0).unwrap();
    chip.execute(0x6242).unwrap();
    chip.execute(0x8124).unwrap();
    assert_eq!(0x32, chip.get_v1());
    assert_eq!(1, chip.get_vf());

    chip.execute(0x6142).unwrap();
    chip.execute(0x8124).unwrap();
    assert_eq!(0x84, chip.get_v1());
    assert_eq!(0, chip.get_vf());
}

#[test]
fn subtract_with_borrow_scenarios() {
    let mut chip = init_chip();
    chip.execute(0x6184).unwrap();
    chip.execute(0x6225).unwrap();
    chip.execute(0x8125).unwrap();
    assert_eq!(0x5F, chip.get_v1());
    assert_eq!(1, chip.get_vf());

    chip.execute(0x6184).unwrap();
    chip.execute(0x8127).unwrap();
    assert_eq!(0xA1, chip.get_v1());
    assert_eq!(0, chip.get_vf());

    // Equal operands borrow nothing.
    chip.execute(0x6133).unwrap();
    chip.execute(0x6233).unwrap();
    chip.execute(0x8125).unwrap();
    assert_eq!(0, chip.get_v1());
    assert_eq!(1, chip.get_vf());
}

#[test]
fn jump_call_return_and_skips() {
    let mut chip = init_chip();
    chip.execute(0x1DAE).unwrap();
    assert_eq!(0xDAE, chip.get_pc());

    chip.execute(0x2345).unwrap();
    assert_eq!(0x345, chip.get_pc());
    assert_eq!(1, *chip.get_sp());
    chip.execute(0x00EE).unwrap();
    assert_eq!(0xDAE, chip.get_pc());
    assert_eq!(0, *chip.get_sp());

    chip.execute(0x6507).unwrap();
    chip.execute(0x3507).unwrap();
    assert_eq!(0xDB0, chip.get_pc());
    chip.execute(0x3508).unwrap();
    assert_eq!(0xDB0, chip.get_pc());
    chip.execute(0x4508).unwrap();
    assert_eq!(0xDB2, chip.get_pc());
}

#[test]
fn skip_wraps_at_end_of_memory() {
    let mut chip = init_chip();
    chip.execute(0x1FFE).unwrap();
    chip.execute(0x3000).unwrap();
    assert_eq!(0x000, chip.get_pc());
}

#[test]
fn jump_with_offset_is_masked() {
    let mut chip = init_chip();
    chip.execute(0x60FF).unwrap();
    chip.execute(0xBFF0).unwrap();
    assert_eq!((0xFF0 + 0xFF) & 0xFFF, chip.get_pc());
}

#[test]
fn sprite_wraps_to_column_zero_of_same_row() {
    let mut chip = init_chip();
    // Glyph of 0 (rows F0 90 90 90 F0) is 4 pixels wide; draw it at x = 62.
    chip.execute(0x603E).unwrap();
    chip.execute(0x6105).unwrap();
    chip.execute(0xA000).unwrap();
    chip.execute(0xD015).unwrap();
    let video = chip.get_screen();
    assert_eq!(1, video[62 + 64 * 5]);
    assert_eq!(1, video[63 + 64 * 5]);
    assert_eq!(1, video[0 + 64 * 5]);
    assert_eq!(1, video[1 + 64 * 5]);
    assert_eq!(0, video[0 + 64 * 6]);
    assert_eq!(1, video[1 + 64 * 6]);
    assert_eq!(0, video[64 * 4 + 63]);
    assert_eq!(0xF0, chip.get_sprite_row(62, 5, video));
    assert_eq!(0x90, chip.get_sprite_row(62, 6, video));
    assert_eq!(0, chip.get_vf());

    chip.execute(0xD015).unwrap();
    assert_eq!(1, chip.get_vf());
    assert!(chip.get_screen().iter().all(|&p| p == 0));
}

#[test]
fn sprite_wraps_vertically() {
    let mut chip = init_chip();
    chip.execute(0x6000).unwrap();
    chip.execute(0x611E).unwrap();
    chip.execute(0xA000).unwrap();
    chip.execute(0xD015).unwrap();
    let video = chip.get_screen();
    assert_eq!(0xF0, chip.get_sprite_row(0, 30, video));
    assert_eq!(0x90, chip.get_sprite_row(0, 31, video));
    assert_eq!(0x90, chip.get_sprite_row(0, 0, video));
    assert_eq!(0x90, chip.get_sprite_row(0, 1, video));
    assert_eq!(0xF0, chip.get_sprite_row(0, 2, video));
}

#[test]
fn blocking_wait_for_key() {
    let mut chip = init_chip();
    chip.load_rom(&[0xF3, 0x0A, 0x00, 0xE0]).unwrap();
    for _ in 0..10 {
        assert_eq!(Ok(Instruction::WaitKey { x: 3 }), chip.cycle());
        assert_eq!(0x200, chip.get_pc());
    }
    chip.press_key(0x7, true);
    chip.cycle().unwrap();
    assert_eq!(0x7, chip.get_v3());
    assert_eq!(0x202, chip.get_pc());
}

#[test]
fn wait_for_key_takes_lowest_pressed() {
    let mut chip = init_chip();
    chip.input.press(0xC, true);
    chip.input.press(0x5, true);
    chip.execute(0xF20A).unwrap();
    assert_eq!(0x5, chip.get_v2());
    chip.input.press(0x5, false);
    chip.execute(0xF20A).unwrap();
    assert_eq!(0xC, chip.get_v2());
}

#[test]
fn timers_count_down_per_tick_only() {
    let mut chip = init_chip();
    chip.load_rom(&[0x60, 0x03, 0xF0, 0x15, 0x61, 0x01, 0xF1, 0x18, 0x70, 0x01, 0x12, 0x08]).unwrap();
    for _ in 0..4 {
        chip.cycle().unwrap();
    }
    assert_eq!(3, chip.get_delay_timer());
    assert_eq!(1, chip.get_sound_timer());
    for _ in 0..50 {
        chip.cycle().unwrap();
    }
    assert_eq!(3, chip.get_delay_timer());
    assert_eq!(1, chip.get_sound_timer());

    chip.countdown_timers();
    assert_eq!(2, chip.get_delay_timer());
    assert_eq!(0, chip.get_sound_timer());
    chip.countdown_timers();
    chip.countdown_timers();
    chip.countdown_timers();
    assert_eq!(0, chip.get_delay_timer());
    assert_eq!(0, chip.get_sound_timer());
}

#[test]
fn unknown_opcode_is_fatal_after_the_fetch() {
    let mut chip = init_chip();
    chip.execute(0x6A11).unwrap();
    assert_eq!(Err(Chip8Error::UnknownOpcode { word: 0x0123 }), chip.execute(0x0123));
    assert_eq!(0x200, chip.get_pc());
    chip.load_rom(&[0x01, 0x23]).unwrap();
    assert_eq!(Err(Chip8Error::UnknownOpcode { word: 0x0123 }), chip.cycle());
    assert_eq!(0x202, chip.get_pc());
    assert_eq!(0x11, chip.get_va());
}

#[test]
fn failing_call_step_keeps_the_advance() {
    let mut chip = init_chip();
    chip.load_rom(&[0x22, 0x00]).unwrap();
    for _ in 0..16 {
        chip.cycle().unwrap();
    }
    assert_eq!(16, *chip.get_sp());
    assert_eq!(Err(Chip8Error::StackOverflow), chip.cycle());
    assert_eq!(0x202, chip.get_pc());
    assert_eq!(16, *chip.get_sp());
}

#[test]
fn unknown_sub_opcode_is_a_no_op() {
    let mut chip = init_chip();
    chip.execute(0x6A11).unwrap();
    let before = registers(&chip);
    assert_eq!(Ok(Instruction::Unrecognized { word: 0x8AB9 }), chip.execute(0x8AB9));
    assert_eq!(Ok(Instruction::Unrecognized { word: 0xEAFF }), chip.execute(0xEAFF));
    assert_eq!(Ok(Instruction::Unrecognized { word: 0xFA99 }), chip.execute(0xFA99));
    assert_eq!(before, registers(&chip));
    assert_eq!(0x200, chip.get_pc());
}

#[test]
fn stack_overflow_and_underflow() {
    let mut chip = init_chip();
    assert_eq!(Err(Chip8Error::StackUnderflow), chip.execute(0x00EE));
    for _ in 0..16 {
        chip.execute(0x2400).unwrap();
    }
    assert_eq!(16, *chip.get_sp());
    assert_eq!(Err(Chip8Error::StackOverflow), chip.execute(0x2500));
    assert_eq!(0x400, chip.get_pc());
    assert_eq!(16, *chip.get_sp());
}

#[test]
fn rom_size_limit() {
    let mut chip = init_chip();
    let too_big = vec![0xAAu8; 3585];
    assert_eq!(Err(Chip8Error::RomTooLarge { len: 3585 }), chip.load_rom(&too_big));
    let fits = vec![0x55u8; 3584];
    assert_eq!(Ok(()), chip.load_rom(&fits));
    assert_eq!(vec![0x55u8; 16], read_memory(&mut chip, 0xFF0, 16));
}

#[test]
fn rom_load_keeps_rest_of_memory() {
    let mut chip = init_chip();
    chip.load_rom(&[1, 2, 3, 4, 5, 6]).unwrap();
    chip.load_rom(&[9, 9]).unwrap();
    assert_eq!(vec![9, 9, 3, 4, 5, 6, 0, 0], read_memory(&mut chip, 0x200, 8));
}

#[test]
fn random_byte_is_masked() {
    let mut chip = init_chip();
    assert_eq!(Ok(Instruction::Random { x: 1, nn: 0xF0 }), chip.execute_with_random(0xC1F0, 0xAB));
    assert_eq!(0xA0, chip.get_v1());
    for _ in 0..50 {
        chip.execute(0xC20F).unwrap();
        assert!(chip.get_v2() <= 0x0F);
    }
}

#[test]
fn random_stays_below_bound() {
    let chip = init_chip();
    assert_eq!(0, chip.random(1));
    for _ in 0..100 {
        assert!(chip.random(5) < 5);
    }
}

#[test]
fn bcd_store_and_registers_round_trip() {
    let mut chip = init_chip();
    chip.execute(0x60EA).unwrap(); // 234
    chip.execute(0xA300).unwrap();
    chip.execute(0xF033).unwrap();
    assert_eq!(vec![2, 3, 4], read_memory(&mut chip, 0x300, 3));

    chip.execute(0x6011).unwrap();
    chip.execute(0x6122).unwrap();
    chip.execute(0x6233).unwrap();
    chip.execute(0xA400).unwrap();
    chip.execute(0xF255).unwrap();
    assert_eq!(0x400, *chip.get_i_register());
    assert_eq!(vec![0x11, 0x22, 0x33], read_memory(&mut chip, 0x400, 3));
}

#[test]
fn glyph_region_is_read_only() {
    let mut chip = init_chip();
    chip.execute(0x6001).unwrap();
    chip.execute(0xA004).unwrap();
    chip.execute(0xF033).unwrap();
    chip.execute(0xA000).unwrap();
    chip.execute(0xF055).unwrap();
    assert_eq!(FONT[..8].to_vec(), read_memory(&mut chip, 0, 8));
}

#[test]
fn glyph_address_is_five_times_digit() {
    let mut chip = init_chip();
    chip.execute(0x6B0B).unwrap();
    chip.execute(0xFB29).unwrap();
    assert_eq!(55, *chip.get_i_register());
}

#[test]
fn shifts_report_shifted_out_bit() {
    let mut chip = init_chip();
    chip.execute(0x6381).unwrap();
    chip.execute(0x8306).unwrap();
    assert_eq!(0x40, chip.get_v3());
    assert_eq!(1, chip.get_vf());
    chip.execute(0x6381).unwrap();
    chip.execute(0x830E).unwrap();
    assert_eq!(0x02, chip.get_v3());
    assert_eq!(1, chip.get_vf());
}

#[test]
fn decoder_table() {
    assert_eq!(Ok(Instruction::ClearScreen), decode(0x00E0));
    assert_eq!(Ok(Instruction::Return), decode(0x00EE));
    assert_eq!(Ok(Instruction::Draw { x: 1, y: 2, n: 5 }), decode(0xD125));
    assert_eq!(Ok(Instruction::StoreRegisters { x: 0xC }), decode(0xFC55));
    assert_eq!(Ok(Instruction::JumpOffset { addr: 0x432 }), decode(0xB432));
    assert_eq!(Err(Chip8Error::UnknownOpcode { word: 0x0ABC }), decode(0x0ABC));
}
