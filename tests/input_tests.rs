use chip8::{init_chip, Chip8};

/// Key indices of the conventional keypad layout used by the host.
const KEY_NUMPAD1: u8 = 0x1;
const KEY_NUMPAD2: u8 = 0x2;
const KEY_Z: u8 = 0xA;

/// A keypad loop: wait for a key into V6, then jump back to the start.
const KEYPAD_LOOP_ROM: [u8; 4] = [0xF6, 0x0A, 0x12, 0x00];

fn set_up() -> Chip8 {
    let mut chip = init_chip();
    chip.load_rom(&KEYPAD_LOOP_ROM).unwrap();
    chip.execute(0x6064).unwrap();
    chip.execute(0x6127).unwrap();
    chip.execute(0x6212).unwrap();
    chip.execute(0x63AE).unwrap();
    chip.execute(0x64FF).unwrap();
    chip.execute(0x65B4).unwrap();
    chip.execute(0x6642).unwrap();
    chip.execute(0x6F25).unwrap();
    chip
}

/// FX0A waits for a key press and stores the key in VX: as long as no key
/// is down, the program counter does not move.
#[test]
fn test_chip8_waits_for_keyboard_input() {
    let mut chip8 = set_up();
    let pc = chip8.get_pc();
    chip8.cycle().unwrap();
    chip8.cycle().unwrap();
    chip8.cycle().unwrap();
    chip8.cycle().unwrap();
    assert_eq!(pc, chip8.get_pc());
}

#[test]
fn test_chip8_continues_after_keyboard_input() {
    let mut chip8 = set_up();
    let pc = chip8.get_pc();
    chip8.cycle().unwrap();
    chip8.cycle().unwrap();
    assert_eq!(pc, chip8.get_pc());

    chip8.input.press(KEY_Z, true);
    chip8.cycle().unwrap();
    chip8.cycle().unwrap();
    assert_eq!(0xA, chip8.get_v6());
}

/// EX9E skips the next instruction if the key in VX is pressed.
#[test]
fn skip_if_pressed() {
    let mut chip8 = set_up();
    chip8.input.press(KEY_NUMPAD1, true);
    chip8.execute(0x6002).unwrap(); // Store 0x02 into V0
    chip8.execute(0xE09E).unwrap(); // Skip if 0x02 is pressed (it isn't)
    assert_eq!(0x200, chip8.get_pc());

    chip8.input.press(KEY_NUMPAD2, true);
    chip8.execute(0x6002).unwrap(); // Store 0x02 into V0
    chip8.execute(0xE09E).unwrap(); // Skip if 0x02 is pressed (it is)
    assert_eq!(0x202, chip8.get_pc());
}

/// EXA1 skips the next instruction if the key in VX is not pressed.
#[test]
fn skip_if_not_pressed() {
    let mut chip8 = set_up();
    chip8.input.press(KEY_NUMPAD1, true);
    chip8.execute(0x6002).unwrap(); // Store 0x02 into V0
    chip8.execute(0xE0A1).unwrap(); // Skip if 0x02 is not pressed (it isn't)
    assert_eq!(0x202, chip8.get_pc());

    chip8.input.press(KEY_NUMPAD2, true);
    chip8.execute(0x6002).unwrap(); // Store 0x02 into V0
    chip8.execute(0xE0A1).unwrap(); // Skip if 0x02 is not pressed (it is)
    assert_eq!(0x202, chip8.get_pc());
}
