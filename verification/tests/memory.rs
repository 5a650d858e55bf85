use geebee::cart::Cartridge;
use geebee::memory::Memory;

fn header_checksum(rom: &[u8]) -> u8 {
    let mut x: u8 = 0;
    for i in 0x134..0x14d {
        x = x.wrapping_sub(rom[i]).wrapping_sub(1);
    }
    x
}

fn cartridge(cart_type: u8, ram_size: u8, banks: usize, cgb: bool) -> Cartridge {
    let mut rom = vec![0u8; 0x4000 * banks];
    for bank in 0..banks {
        rom[0x4000 * bank] = bank as u8;
    }
    rom[0x134] = b'T';
    rom[0x143] = if cgb { 0x80 } else { 0x00 };
    rom[0x147] = cart_type;
    rom[0x149] = ram_size;
    rom[0x14d] = header_checksum(&rom);
    Cartridge::new().with_data(&rom).ok().unwrap()
}

#[test]
fn work_ram_and_echo() {
    let mut m = Memory::new();
    m.write(0xc123, 0x42);
    assert_eq!(m.read(0xc123), 0x42);
    assert_eq!(m.read(0xe123), 0x42);
    m.write(0xf000, 0x17);
    assert_eq!(m.read(0xd000), 0x17);
    assert_eq!(m.read(0xc124), 0x00);
}

#[test]
fn high_ram_and_io() {
    let mut m = Memory::new();
    m.write(0xff80, 0x99);
    m.write(0xfffe, 0x11);
    m.write(0xff10, 0x05);
    assert_eq!(m.read(0xff80), 0x99);
    assert_eq!(m.read(0xfffe), 0x11);
    assert_eq!(m.read(0xff10), 0x05);
    assert_eq!(m.read(0xfea0), 0xff);
}

#[test]
fn work_ram_bank_register() {
    let mut m = Memory::with_cartridge(cartridge(0x00, 0, 2, true));
    assert!(m.cgb_mode());
    assert_eq!(m.read(0xff70), 1);
    m.write(0xd000, 0x01);
    m.write(0xff70, 0x03);
    assert_eq!(m.read(0xff70), 3);
    assert_eq!(m.read(0xd000), 0x00);
    m.write(0xd000, 0x03);
    m.write(0xff70, 0x00);
    assert_eq!(m.read(0xff70), 1);
    assert_eq!(m.read(0xd000), 0x01);

    let mut dmg = Memory::new();
    dmg.write(0xff70, 0x03);
    assert_eq!(dmg.read(0xff70), 0xff);
}

#[test]
fn bus_reads_and_drops() {
    let mut m = Memory::new();
    assert!(!m.can_read(0x0000));
    assert_eq!(m.load(0x0000), 0xff);
    assert_eq!(m.load(0xfe00), 0xff);
    m.store(0x2000, 0x01);
    m.store(0xc000, 0x07);
    assert_eq!(m.load(0xc000), 0x07);
}

#[test]
fn mbc1_banks_and_ram() {
    let mut m = Memory::with_cartridge(cartridge(0x03, 2, 8, false));
    assert_eq!(m.read(0x0000), 0);
    assert_eq!(m.read(0x4000), 1);
    m.write(0x2000, 0x05);
    assert_eq!(m.read(0x4000), 5);
    m.write(0x2000, 0x00);
    assert_eq!(m.read(0x4000), 1);

    // RAM reads as 0 until enabled.
    m.write(0xa000, 0x55);
    assert_eq!(m.read(0xa000), 0x00);
    m.write(0x0000, 0x0a);
    m.write(0xa000, 0x55);
    assert_eq!(m.read(0xa000), 0x55);
    m.write(0x0000, 0x00);
    assert_eq!(m.read(0xa000), 0x00);
}

#[test]
fn mbc3_banks_and_ram() {
    let mut m = Memory::with_cartridge(cartridge(0x13, 3, 8, false));
    m.write(0x2000, 0x07);
    assert_eq!(m.read(0x4000), 7);
    m.write(0x0000, 0x0a);
    m.write(0x4000, 0x02);
    m.write(0xa010, 0x66);
    assert_eq!(m.read(0xa010), 0x66);
    m.write(0x4000, 0x00);
    assert_eq!(m.read(0xa010), 0x00);
}

#[test]
fn boot_rom_over_cartridge() {
    let boot: Vec<u8> = (0..0x100).map(|i| (i as u8) ^ 0xff).collect();
    let mut m = Memory::with_cartridge(cartridge(0x00, 0, 2, false)).with_bootrom(&boot);
    assert!(m.has_bootrom());
    assert_eq!(m.read(0x0000), 0xff);
    assert_eq!(m.read(0x0010), 0xef);
    // The header shows through.
    assert_eq!(m.read(0x0134), b'T');
    assert!(m.can_disable_booting());
    m.disable_booting();
    assert!(!m.has_bootrom());
    assert_eq!(m.read(0x0000), 0);
    assert_eq!(m.read(0x0134), b'T');
}

#[test]
fn boot_rom_alone_cannot_be_removed() {
    let m = Memory::new().with_bootrom(&[0x31, 0xfe, 0xff]);
    assert!(m.has_bootrom());
    assert_eq!(m.read(0x0001), 0xfe);
    assert!(!m.can_disable_booting());
}

#[test]
fn ram_size_codes_past_the_shift_give_no_ram() {
    // MBC1+RAM with code 53: 0x800 << 53 leaves no bit of a 64-bit size.
    let mut m = Memory::with_cartridge(cartridge(0x02, 53, 2, false));
    assert_eq!(m.read(0xa000), 0x00);
    m.write(0x0000, 0x0a);
    assert!(!m.can_read(0xa000));
    assert_eq!(m.load(0xa000), 0xff);
    // MBC3+RAM with code 52.
    let mut m = Memory::with_cartridge(cartridge(0x12, 52, 2, false));
    m.write(0x0000, 0x0a);
    assert!(!m.can_read(0xa000));
}

#[test]
fn cartridge_after_boot_rom_and_writes() {
    let boot: Vec<u8> = vec![0x00; 0x100];
    let mut m = Memory::with_cartridge(cartridge(0x03, 2, 4, true)).with_bootrom(&boot);
    assert!(m.cgb_mode());
    m.write(0xc000, 0x12);
    m.write(0xff80, 0x34);
    m.write(0x2000, 0x03);
    m.disable_booting();
    assert!(!m.has_bootrom());
    assert_eq!(m.read(0x0000), 0);
    assert_eq!(m.read(0x0134), b'T');
    assert_eq!(m.read(0x4000), 1);
    assert_eq!(m.read(0xc000), 0x12);
    assert_eq!(m.read(0xff80), 0x34);
    m.disable_booting();
    assert!(!m.has_bootrom());
    assert_eq!(m.read(0x0000), 0);
}
