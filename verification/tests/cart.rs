use geebee::cart::{CartType, Cartridge, Controller, Error, MIN_ROM_SIZE};

fn header_checksum(rom: &[u8]) -> u8 {
    let mut x: u8 = 0;
    for i in 0x134..0x14d {
        x = x.wrapping_sub(rom[i]).wrapping_sub(1);
    }
    x
}

fn rom_with(title: &[u8], cart_type: u8, ram_size: u8, cgb: u8) -> Vec<u8> {
    let mut rom = vec![0u8; 0x8000];
    for (i, b) in title.iter().enumerate() {
        rom[0x134 + i] = *b;
    }
    rom[0x143] = cgb;
    rom[0x147] = cart_type;
    rom[0x149] = ram_size;
    rom[0x14d] = header_checksum(&rom);
    rom
}

#[test]
fn empty_cartridge() {
    let c = Cartridge::new();
    assert_eq!(c.title(), "EMPTY");
    assert_eq!(c.cart_type().controller, Controller::RomOnly);
    assert_eq!(c.ram_size(), 9);
    assert!(!c.cgb());
    assert!(c.data().is_empty());
}

#[test]
fn short_image_is_invalid() {
    let rom = vec![0u8; MIN_ROM_SIZE - 1];
    assert_eq!(Cartridge::new().with_data(&rom).err(), Some(Error::InvalidRom));
}

#[test]
fn bad_checksum_is_refused() {
    let mut rom = rom_with(b"TETRIS", 0x01, 0, 0);
    rom[0x14d] = rom[0x14d].wrapping_add(1);
    assert_eq!(Cartridge::verify_checksum(&rom), Err(Error::ChecksumFailed));
    assert_eq!(Cartridge::new().with_data(&rom).err(), Some(Error::ChecksumFailed));
}

#[test]
fn checksum_of_zero_header() {
    let mut rom = vec![0u8; 0x8000];
    // 25 bytes, each subtracting one: 256 - 25 = 231.
    rom[0x14d] = 231;
    assert_eq!(Cartridge::verify_checksum(&rom), Ok(()));
}

#[test]
fn title_that_is_not_utf8_is_refused() {
    let rom = rom_with(&[0xff, 0xfe, 0x41], 0x00, 0, 0);
    assert_eq!(Cartridge::new().with_data(&rom).err(), Some(Error::Str));
}

#[test]
fn header_is_read() {
    let rom = rom_with(b"TETRIS", 0x03, 2, 0x80);
    let c = Cartridge::new().with_data(&rom).ok().unwrap();
    assert_eq!(c.title(), "TETRIS");
    let t = c.cart_type();
    assert_eq!(t.controller, Controller::MBC1);
    assert!(t.ram && t.battery && !t.timer && !t.rumble);
    assert_eq!(c.ram_size(), 2);
    assert!(c.cgb());
    assert_eq!(c.data().len(), 0x8000);
    assert_eq!(c.data()[0x147], 0x03);
}

#[test]
fn title_keeps_inner_nul_trimmed_at_ends() {
    let rom = rom_with(&[0, b'A', 0, b'B', 0], 0x00, 0, 0);
    let c = Cartridge::new().with_data(&rom).ok().unwrap();
    assert_eq!(c.title(), "A\u{0}B");
    assert!(!c.cgb());
}

#[test]
fn cart_type_table() {
    assert!(CartType::is_known(0x00));
    assert!(!CartType::is_known(0x04));
    assert!(!CartType::is_known(0x20));
    let t = CartType::from(0x10);
    assert_eq!(t.controller, Controller::MBC3);
    assert!(t.timer && t.ram && t.battery && !t.rumble);
    let t = CartType::from(0x1e);
    assert_eq!(t.controller, Controller::MBC5);
    assert!(t.rumble && t.ram && t.battery);
    let t = CartType::from(0x06);
    assert_eq!(t.controller, Controller::MBC2);
    assert!(t.battery && !t.ram);
    let t = CartType::from(0x16);
    assert_eq!(t.controller, Controller::MBC4);
    assert!(t.ram && !t.battery);
}
