use geebee::cpu::Interrupts;
use geebee::lcd::{LCD, SCREEN_BYTES};
use geebee::memory::Memory;

#[test]
fn registers_after_reset() {
    let lcd = LCD::new(false);
    assert_eq!(lcd.handle_read(0xff40), 0x00);
    assert_eq!(lcd.handle_read(0xff41), 0x02);
    assert_eq!(lcd.handle_read(0xff44), 0x00);
    assert_eq!(lcd.handle_read(0xff46), 0xff);
    assert!(!lcd.done_frame());
    assert_eq!(lcd.screen().len(), SCREEN_BYTES);
    assert!(lcd.screen().iter().all(|b| *b == 0xff));
    for address in [0xff42u16, 0xff43, 0xff45, 0xff47, 0xff48, 0xff49, 0xff4a, 0xff4b] {
        assert_eq!(lcd.handle_read(address), 0x00);
    }
    let cgb = LCD::new(true);
    assert_eq!(cgb.handle_read(0xff41), 0x02);
    assert_eq!(cgb.handle_read(0xff69), 0xff);
    assert_eq!(cgb.handle_read(0xff6b), 0xff);
}

#[test]
fn registers_read_back() {
    let mem = Memory::new();
    let mut lcd = LCD::new(false);
    lcd.handle_write(&mem, 0xff40, 0x91);
    assert_eq!(lcd.handle_read(0xff40), 0x91);
    lcd.handle_write(&mem, 0xff41, 0xff);
    // Only the selection bits are written; the mode (OAM) reads as 2.
    assert_eq!(lcd.handle_read(0xff41), 0x7a);
    lcd.handle_write(&mem, 0xff44, 0x33);
    assert_eq!(lcd.handle_read(0xff44), 0x00);
    for (address, value) in [(0xff42u16, 0x12u8), (0xff43, 0x34), (0xff45, 0x56), (0xff4a, 0x78), (0xff4b, 0x9a)] {
        lcd.handle_write(&mem, address, value);
        assert_eq!(lcd.handle_read(address), value);
    }
    for address in [0xff47u16, 0xff48, 0xff49] {
        lcd.handle_write(&mem, address, 0xe4);
        assert_eq!(lcd.handle_read(address), 0xe4);
    }
    lcd.handle_write(&mem, 0xff4f, 0x03);
    assert_eq!(lcd.handle_read(0xff4f), 0x01);
}

#[test]
fn color_palette_index_increments() {
    let mem = Memory::new();
    let mut lcd = LCD::new(true);
    lcd.handle_write(&mem, 0xff68, 0xc0);
    assert_eq!(lcd.handle_read(0xff68), 0x80);
    lcd.handle_write(&mem, 0xff69, 0x11);
    lcd.handle_write(&mem, 0xff69, 0x22);
    assert_eq!(lcd.handle_read(0xff68), 0x82);
    lcd.handle_write(&mem, 0xff68, 0x01);
    assert_eq!(lcd.handle_read(0xff69), 0x22);
    lcd.handle_write(&mem, 0xff6a, 0x05);
    lcd.handle_write(&mem, 0xff6b, 0x44);
    assert_eq!(lcd.handle_read(0xff6a), 0x05);
    assert_eq!(lcd.handle_read(0xff6b), 0x44);
}

#[test]
fn video_and_oam_read_back() {
    let mem = Memory::new();
    let mut lcd = LCD::new(true);
    lcd.handle_write(&mem, 0x8000, 0x3c);
    lcd.handle_write(&mem, 0x9fff, 0x7e);
    assert_eq!(lcd.handle_read(0x8000), 0x3c);
    assert_eq!(lcd.handle_read(0x9fff), 0x7e);
    lcd.handle_write(&mem, 0xff4f, 0x01);
    assert_eq!(lcd.handle_read(0x8000), 0x00);
    lcd.handle_write(&mem, 0x8000, 0x99);
    assert_eq!(lcd.handle_read(0x8000), 0x99);
    lcd.handle_write(&mem, 0xff4f, 0x00);
    assert_eq!(lcd.handle_read(0x8000), 0x3c);
    lcd.handle_write(&mem, 0xfe10, 0x5a);
    assert_eq!(lcd.handle_read(0xfe10), 0x5a);
}

#[test]
fn oam_transfer_copies_from_memory() {
    let mut mem = Memory::new();
    for i in 0..0xa0u16 {
        mem.write(0xc000 + i, (i as u8).wrapping_mul(3));
    }
    let mut lcd = LCD::new(false);
    lcd.handle_write(&mem, 0xff46, 0xc0);
    for i in 0..0xa0u16 {
        assert_eq!(lcd.handle_read(0xfe00 + i), (i as u8).wrapping_mul(3));
    }
}

#[test]
fn general_transfer_copies_one_block() {
    let mut mem = Memory::new();
    for i in 0..0x20u16 {
        mem.write(0xc000 + i, i as u8 + 1);
    }
    let mut lcd = LCD::new(true);
    lcd.handle_write(&mem, 0xff52, 0x00);
    lcd.handle_write(&mem, 0xff51, 0xc0);
    lcd.handle_write(&mem, 0xff54, 0x00);
    lcd.handle_write(&mem, 0xff53, 0x00);
    lcd.handle_write(&mem, 0xff55, 0x00);
    let mut ints = Interrupts::default();
    lcd.advance(&mut ints, &mem, 4);
    for i in 0..0x10u16 {
        assert_eq!(lcd.handle_read(0x8000 + i), i as u8 + 1);
    }
    assert_eq!(lcd.handle_read(0x8010), 0x00);
    assert_eq!(lcd.handle_read(0xff55), 0xff);
}

#[test]
fn modes_follow_the_scan_line() {
    let mem = Memory::new();
    let mut lcd = LCD::new(false);
    let mut ints = Interrupts::default();
    lcd.handle_write(&mem, 0xff40, 0x91);
    lcd.advance(&mut ints, &mem, 0);
    // OAM search, and LY == LYC == 0.
    assert_eq!(lcd.handle_read(0xff41), 0x06);
    assert_eq!(lcd.handle_read(0xfe00), 0x00);
    lcd.advance(&mut ints, &mem, 80);
    assert_eq!(lcd.handle_read(0xff41) & 0x03, 3);
    lcd.advance(&mut ints, &mem, 172);
    assert_eq!(lcd.handle_read(0xff41) & 0x03, 0);
    lcd.advance(&mut ints, &mem, 204);
    assert_eq!(lcd.handle_read(0xff44), 1);
    assert_eq!(lcd.handle_read(0xff41), 0x02);
    assert_eq!(ints.flag & 0x01, 0);

    let mut ticks = 0u32;
    while lcd.handle_read(0xff44) < 144 {
        lcd.advance(&mut ints, &mem, 4);
        ticks += 4;
        assert!(ticks < 70224);
    }
    assert_eq!(lcd.handle_read(0xff41) & 0x03, 1);
    assert_eq!(ints.flag & 0x01, 0x01);

    let mut frames = 0;
    while !lcd.done_frame() {
        lcd.advance(&mut ints, &mem, 4);
        frames += 1;
        assert!(frames < 2000);
    }
    assert_eq!(lcd.handle_read(0xff44), 0);
    assert_eq!(lcd.handle_read(0xff41) & 0x03, 2);
}

#[test]
fn coincidence_raises_the_stat_interrupt() {
    let mem = Memory::new();
    let mut lcd = LCD::new(false);
    let mut ints = Interrupts::default();
    lcd.handle_write(&mem, 0xff45, 1);
    lcd.handle_write(&mem, 0xff41, 0x40);
    lcd.handle_write(&mem, 0xff40, 0x80);
    lcd.advance(&mut ints, &mem, 0);
    assert_eq!(ints.flag & 0x02, 0);
    lcd.advance(&mut ints, &mem, 80);
    lcd.advance(&mut ints, &mem, 172);
    lcd.advance(&mut ints, &mem, 204);
    assert_eq!(lcd.handle_read(0xff44), 1);
    assert_eq!(lcd.handle_read(0xff41) & 0x04, 0x04);
    assert_eq!(ints.flag & 0x02, 0x02);
}

#[test]
fn switching_off_returns_to_line_zero() {
    let mem = Memory::new();
    let mut lcd = LCD::new(false);
    let mut ints = Interrupts::default();
    lcd.handle_write(&mem, 0xff40, 0x80);
    lcd.advance(&mut ints, &mem, 0);
    lcd.advance(&mut ints, &mem, 80);
    lcd.advance(&mut ints, &mem, 172);
    lcd.advance(&mut ints, &mem, 204);
    assert_eq!(lcd.handle_read(0xff44), 1);
    lcd.handle_write(&mem, 0xff40, 0x00);
    lcd.advance(&mut ints, &mem, 4);
    assert_eq!(lcd.handle_read(0xff44), 0);
    assert_eq!(lcd.handle_read(0xff41) & 0x03, 0);
}

#[test]
fn background_line_is_drawn_with_the_palette() {
    let mem = Memory::new();
    let mut lcd = LCD::new(false);
    let mut ints = Interrupts::default();
    // Every colour number shows as black.
    lcd.handle_write(&mem, 0xff47, 0xff);
    lcd.handle_write(&mem, 0xff40, 0x91);
    lcd.advance(&mut ints, &mem, 0);
    lcd.advance(&mut ints, &mem, 80);
    lcd.advance(&mut ints, &mem, 172);
    let screen = lcd.screen();
    for x in 0..158 {
        assert_eq!(&screen[x * 4..x * 4 + 3], &[0, 0, 0]);
        assert_eq!(screen[x * 4 + 3], 0xff);
    }
    // A channel is written only while `x + channel` stays inside the line.
    assert_eq!(&screen[158 * 4..158 * 4 + 3], &[0, 0, 0xff]);
    assert_eq!(&screen[159 * 4..159 * 4 + 3], &[0, 0xff, 0xff]);
    // The next line is not drawn yet.
    assert_eq!(screen[160 * 4], 0xff);
}

#[test]
fn background_off_draws_white() {
    let mem = Memory::new();
    let mut lcd = LCD::new(false);
    let mut ints = Interrupts::default();
    lcd.handle_write(&mem, 0xff47, 0xff);
    lcd.handle_write(&mem, 0xff40, 0x80);
    lcd.advance(&mut ints, &mem, 0);
    lcd.advance(&mut ints, &mem, 80);
    lcd.advance(&mut ints, &mem, 172);
    assert!(lcd.screen()[..160 * 4].iter().all(|b| *b == 0xff));
}

#[test]
fn sprite_is_drawn_over_the_background() {
    let mem = Memory::new();
    let mut lcd = LCD::new(false);
    let mut ints = Interrupts::default();
    // Tile 1, first row: colour 3 in the leftmost pixel only.
    lcd.handle_write(&mem, 0x8010, 0x80);
    lcd.handle_write(&mem, 0x8011, 0x80);
    // Sprite 0 at screen (0, 0) with tile 1.
    lcd.handle_write(&mem, 0xfe00, 16);
    lcd.handle_write(&mem, 0xfe01, 8);
    lcd.handle_write(&mem, 0xfe02, 1);
    lcd.handle_write(&mem, 0xfe03, 0);
    // Background white, sprite colour 3 black.
    lcd.handle_write(&mem, 0xff47, 0x00);
    lcd.handle_write(&mem, 0xff48, 0xc0);
    lcd.handle_write(&mem, 0xff40, 0x93);
    lcd.advance(&mut ints, &mem, 0);
    lcd.advance(&mut ints, &mem, 80);
    lcd.advance(&mut ints, &mem, 172);
    let screen = lcd.screen();
    assert_eq!(&screen[0..3], &[0, 0, 0]);
    assert_eq!(&screen[4..7], &[255, 255, 255]);
}

#[test]
fn tiles_image_has_opaque_pixels() {
    let mem = Memory::new();
    let mut lcd = LCD::new(false);
    lcd.handle_write(&mem, 0xff47, 0xe4);
    lcd.handle_write(&mem, 0x8000, 0x80);
    lcd.handle_write(&mem, 0x8001, 0x80);
    let t = lcd.tiles();
    assert_eq!(t.len(), 256 * 256 * 4);
    assert!(t.iter().skip(3).step_by(4).all(|b| *b == 0xff));
    // Colour 3 through 0xe4 is black; its neighbour is colour 0, white.
    assert_eq!(&t[0..3], &[0, 0, 0]);
    assert_eq!(&t[4..7], &[255, 255, 255]);
}

fn sprite(lcd: &mut LCD, mem: &Memory, id: u16, x: u8, y: u8, tile: u8, flags: u8) {
    let base = 0xfe00 + id * 4;
    lcd.handle_write(mem, base, y);
    lcd.handle_write(mem, base + 1, x);
    lcd.handle_write(mem, base + 2, tile);
    lcd.handle_write(mem, base + 3, flags);
}

fn draw_first_line(lcd: &mut LCD, mem: &Memory) {
    let mut ints = Interrupts::default();
    lcd.advance(&mut ints, mem, 0);
    lcd.advance(&mut ints, mem, 80);
    lcd.advance(&mut ints, mem, 172);
}

#[test]
fn earlier_sprite_is_on_top() {
    let mem = Memory::new();
    let mut lcd = LCD::new(false);
    // Tile 1: leftmost pixel colour 1; tile 2: leftmost pixel colour 3.
    lcd.handle_write(&mem, 0x8010, 0x80);
    lcd.handle_write(&mem, 0x8020, 0x80);
    lcd.handle_write(&mem, 0x8021, 0x80);
    sprite(&mut lcd, &mem, 0, 8, 16, 1, 0x00);
    sprite(&mut lcd, &mem, 1, 8, 16, 2, 0x00);
    // Colour 1 light gray, colour 3 black.
    lcd.handle_write(&mem, 0xff48, 0xc4);
    lcd.handle_write(&mem, 0xff47, 0x00);
    lcd.handle_write(&mem, 0xff40, 0x93);
    draw_first_line(&mut lcd, &mem);
    assert_eq!(&lcd.screen()[0..3], &[170, 170, 170]);
}

#[test]
fn smaller_x_is_on_top() {
    let mem = Memory::new();
    let mut lcd = LCD::new(false);
    lcd.handle_write(&mem, 0x8010, 0xc0);
    lcd.handle_write(&mem, 0x8020, 0xc0);
    lcd.handle_write(&mem, 0x8021, 0xc0);
    // Sprite 0 covers screen columns 1 and 2 with colour 3; sprite 1 covers
    // columns 0 and 1 with colour 1, and wins column 1.
    sprite(&mut lcd, &mem, 0, 9, 16, 2, 0x00);
    sprite(&mut lcd, &mem, 1, 8, 16, 1, 0x00);
    lcd.handle_write(&mem, 0xff48, 0xc4);
    lcd.handle_write(&mem, 0xff40, 0x93);
    draw_first_line(&mut lcd, &mem);
    let s = lcd.screen();
    assert_eq!(&s[0..3], &[170, 170, 170]);
    assert_eq!(&s[4..7], &[170, 170, 170]);
    assert_eq!(&s[8..11], &[0, 0, 0]);
}

#[test]
fn ten_sprites_per_line() {
    let mem = Memory::new();
    let mut lcd = LCD::new(false);
    lcd.handle_write(&mem, 0x8010, 0x80);
    lcd.handle_write(&mem, 0x8011, 0x80);
    // Eleven sprites, right to left; the rightmost one is the eleventh by x.
    for id in 0..11u16 {
        sprite(&mut lcd, &mem, id, 8 + 10 * (10 - id as u8), 16, 1, 0x00);
    }
    lcd.handle_write(&mem, 0xff48, 0xc0);
    lcd.handle_write(&mem, 0xff40, 0x93);
    draw_first_line(&mut lcd, &mem);
    let s = lcd.screen();
    for k in 0..10 {
        let x = 10 * k;
        assert_eq!(&s[x * 4..x * 4 + 3], &[0, 0, 0]);
    }
    assert_eq!(&s[100 * 4..100 * 4 + 3], &[255, 255, 255]);
}

#[test]
fn sprite_behind_background() {
    let mem = Memory::new();
    let mut lcd = LCD::new(false);
    lcd.handle_write(&mem, 0x8010, 0x80);
    lcd.handle_write(&mem, 0x8011, 0x80);
    sprite(&mut lcd, &mem, 0, 8, 16, 1, 0x80);
    lcd.handle_write(&mem, 0xff48, 0xc0);
    // The sprite hides behind the background only where the background
    // colour is not 0, and only while the background is switched off.
    lcd.handle_write(&mem, 0xff40, 0x92);
    draw_first_line(&mut lcd, &mem);
    assert_eq!(&lcd.screen()[0..3], &[0, 0, 0]);
}

#[test]
fn tall_sprites_ignore_the_low_tile_bit() {
    let mem = Memory::new();
    let mut lcd = LCD::new(false);
    // Tile 2, row 0: colour 3 at the leftmost pixel.
    lcd.handle_write(&mem, 0x8020, 0x80);
    lcd.handle_write(&mem, 0x8021, 0x80);
    sprite(&mut lcd, &mem, 0, 8, 16, 3, 0x00);
    lcd.handle_write(&mem, 0xff48, 0xc0);
    lcd.handle_write(&mem, 0xff40, 0x97);
    draw_first_line(&mut lcd, &mem);
    assert_eq!(&lcd.screen()[0..3], &[0, 0, 0]);
}

#[test]
fn advancing_only_raises_display_requests() {
    let mem = Memory::new();
    let mut lcd = LCD::new(false);
    lcd.handle_write(&mem, 0xff40, 0x91);
    // Every STAT source selected, and LYC on a visible line.
    lcd.handle_write(&mem, 0xff41, 0x78);
    lcd.handle_write(&mem, 0xff45, 0x05);
    let mut ints = Interrupts::default();
    ints.flag = 0xe4;
    ints.enable = 0x1f;
    ints.enabled = true;
    let mut previous = ints.flag;
    for _ in 0..(2 * 70224 / 80) {
        lcd.advance(&mut ints, &mem, 80);
        assert_eq!(ints.flag & 0xfc, 0xe4);
        assert_eq!(ints.flag & previous, previous);
        assert!(lcd.handle_read(0xff44) <= 153);
        previous = ints.flag;
    }
    assert_eq!(ints.flag, 0xe7);
    assert_eq!(ints.enable, 0x1f);
    assert!(ints.enabled);
}
