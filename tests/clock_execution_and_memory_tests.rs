use chip8::{init_chip, Chip8};

fn set_up_load_rom() -> Chip8 {
    let mut chip = init_chip();
    let rom: [u8; 8] = [0x60, 0x15, 0x61, 0x20, 0x62, 0x25, 0x63, 0x30];
    chip.load_rom(&rom).unwrap();
    chip
}

#[test]
fn test_cycle() {
    let mut chip8 = set_up_load_rom();
    chip8.cycle().unwrap();
    chip8.cycle().unwrap();
    chip8.cycle().unwrap();
    chip8.cycle().unwrap();
    assert_eq!(0x15, chip8.get_v0());
    assert_eq!(0x20, chip8.get_v1());
    assert_eq!(0x25, chip8.get_v2());
    assert_eq!(0x30, chip8.get_v3());
    assert_eq!(0x208, chip8.get_pc());
}
