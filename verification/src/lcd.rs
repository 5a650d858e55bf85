use vstd::prelude::*;
use crate::bytes::{self, word};
use crate::cpu::Interrupts;
use crate::memory::Memory;
use crate::render::line_drawn;
use crate::timer::Timing;

verus! {

/// The screen's width in pixels.
pub const SCREEN_WIDTH: u8 = 160;

/// The screen's height in pixels.
pub const SCREEN_HEIGHT: u8 = 144;

/// The number of bytes of the screen buffer: four per pixel.
pub const SCREEN_BYTES: usize = 92160;

/// The number of bytes of video RAM: two banks of 8 KiB.
pub const VIDEO_BYTES: usize = 0x4000;

/// The bytes of the image of the tiles: 256 by 256 pixels of four bytes.
pub const TILES_BYTES: usize = 262144;

/// Byte `j` of the image of the 32 by 32 tiles at the start of video RAM,
/// drawn with the background palette: a channel of the pixel at row
/// `j / 1024`, column `(j / 4) % 256`, or the opaque fourth byte.
pub open spec fn tile_image_byte(lcd: LCD, j: int) -> u8 {
    let (row, col, c) = (j / 1024, (j / 4) % 256, j % 4);
    let address = ((row / 8) * 32 + col / 8) * 16 + (row % 8) * 2;
    let bit = (7 - col % 8) as u8;
    if c == 3 {
        0xff
    } else {
        lcd.regs.bgp.color_spec(
            crate::render::pixel_color(bit, lcd.video@[address + 1], lcd.video@[address]),
        )[c]
    }
}

/// The last scan line, counting the ones during vertical blank.
pub const LAST_LINE: u8 = 153;

/// The mode of the display controller, reported in the low bits of STAT.
#[derive(PartialEq, Eq, Structural, Copy, Clone)]
pub enum Mode {
    HBlank,
    VBlank,
    OAM,
    VRAM,
}

/// The kind of video RAM transfer under way.
#[derive(PartialEq, Eq, Structural, Copy, Clone)]
pub enum HDMA {
    Idle,
    GDMA,
    HDMA,
}

#[derive(PartialEq, Eq, Structural, Copy, Clone)]
pub enum SpriteSize {
    Small,
    Large,
}

/// The LCDC register, decoded.
#[derive(PartialEq, Eq, Structural, Copy, Clone)]
pub struct LCDC {
    pub display_enable: bool,
    pub window_tile_map_display_select: bool,
    pub window_display_enable: bool,
    pub bg_window_tile_data_select: bool,
    pub bg_tile_map_display_select: bool,
    pub obj_size: SpriteSize,
    pub obj_display_enable: bool,
    pub bg_display: bool,
}

/// The LCDC register that a byte written to it sets.
pub open spec fn lcdc_of(f: u8) -> LCDC {
    LCDC {
        display_enable: f & 0x80 != 0,
        window_tile_map_display_select: f & 0x40 != 0,
        window_display_enable: f & 0x20 != 0,
        bg_window_tile_data_select: f & 0x10 != 0,
        bg_tile_map_display_select: f & 0x08 != 0,
        obj_size: if f & 0x04 != 0 {
            SpriteSize::Large
        } else {
            SpriteSize::Small
        },
        obj_display_enable: f & 0x02 != 0,
        bg_display: f & 0x01 != 0,
    }
}

/// The value of a flag bit.
pub open spec fn bit(b: bool, mask: u8) -> u8 {
    if b {
        mask
    } else {
        0
    }
}

/// The byte that reading the LCDC register gives.
pub open spec fn lcdc_byte(l: LCDC) -> u8 {
    (bit(l.display_enable, 0x80) + bit(l.window_tile_map_display_select, 0x40) + bit(
        l.window_display_enable,
        0x20,
    ) + bit(l.bg_window_tile_data_select, 0x10) + bit(l.bg_tile_map_display_select, 0x08) + bit(
        l.obj_size == SpriteSize::Large,
        0x04,
    ) + bit(l.obj_display_enable, 0x02) + bit(l.bg_display, 0x01)) as u8
}

impl LCDC {
    pub fn default() -> (r: Self)
        ensures
            r == lcdc_of(0),
    {
        assert(lcdc_of(0) == LCDC {
            display_enable: false,
            window_tile_map_display_select: false,
            window_display_enable: false,
            bg_window_tile_data_select: false,
            bg_tile_map_display_select: false,
            obj_size: SpriteSize::Small,
            obj_display_enable: false,
            bg_display: false,
        }) by (bit_vector);
        LCDC {
            display_enable: false,
            window_tile_map_display_select: false,
            window_display_enable: false,
            bg_window_tile_data_select: false,
            bg_tile_map_display_select: false,
            obj_size: SpriteSize::Small,
            obj_display_enable: false,
            bg_display: false,
        }
    }
}

impl From<u8> for LCDC {
    fn from(f: u8) -> (r: LCDC) {
        LCDC {
            display_enable: f & 0x80 != 0,
            window_tile_map_display_select: f & 0x40 != 0,
            window_display_enable: f & 0x20 != 0,
            bg_window_tile_data_select: f & 0x10 != 0,
            bg_tile_map_display_select: f & 0x08 != 0,
            obj_size: if f & 0x04 != 0 {
                SpriteSize::Large
            } else {
                SpriteSize::Small
            },
            obj_display_enable: f & 0x02 != 0,
            bg_display: f & 0x01 != 0,
        }
    }
}

impl vstd::std_specs::convert::FromSpecImpl<u8> for LCDC {
    open spec fn obeys_from_spec() -> bool {
        true
    }

    open spec fn from_spec(f: u8) -> LCDC {
        lcdc_of(f)
    }
}

proof fn lemma_eight_bits(
    a: bool,
    b: bool,
    c: bool,
    d: bool,
    e: bool,
    f: bool,
    g: bool,
    h: bool,
)
    ensures
        ((bit(a, 0x80) | bit(b, 0x40)) | (bit(c, 0x20) | bit(d, 0x10))) | ((bit(e, 0x08) | bit(
            f,
            0x04,
        )) | (bit(g, 0x02) | bit(h, 0x01))) == (bit(a, 0x80) + bit(b, 0x40) + bit(c, 0x20) + bit(
            d,
            0x10,
        ) + bit(e, 0x08) + bit(f, 0x04) + bit(g, 0x02) + bit(h, 0x01)) as u8,
{
    let (a1, b1, c1, d1, e1, f1, g1, h1) = (
        bit(a, 0x80),
        bit(b, 0x40),
        bit(c, 0x20),
        bit(d, 0x10),
        bit(e, 0x08),
        bit(f, 0x04),
        bit(g, 0x02),
        bit(h, 0x01),
    );
    assert((a1 == 0 || a1 == 0x80) && (b1 == 0 || b1 == 0x40) && (c1 == 0 || c1 == 0x20) && (d1
        == 0 || d1 == 0x10) && (e1 == 0 || e1 == 0x08) && (f1 == 0 || f1 == 0x04) && (g1 == 0
        || g1 == 0x02) && (h1 == 0 || h1 == 0x01) ==> ((a1 | b1) | (c1 | d1)) | ((e1 | f1) | (g1
        | h1)) == (a1 + b1 + c1 + d1 + e1 + f1 + g1 + h1) as u8) by (bit_vector);
}

impl From<LCDC> for u8 {
    fn from(lcdc: LCDC) -> (r: u8) {
        proof {
            lemma_eight_bits(
                lcdc.display_enable,
                lcdc.window_tile_map_display_select,
                lcdc.window_display_enable,
                lcdc.bg_window_tile_data_select,
                lcdc.bg_tile_map_display_select,
                lcdc.obj_size == SpriteSize::Large,
                lcdc.obj_display_enable,
                lcdc.bg_display,
            );
        }
        ((if lcdc.display_enable { 0x80u8 } else { 0 }) | (if lcdc.window_tile_map_display_select {
            0x40u8
        } else {
            0
        })) | ((if lcdc.window_display_enable { 0x20u8 } else { 0 }) | (
        if lcdc.bg_window_tile_data_select {
            0x10u8
        } else {
            0
        })) | (((if lcdc.bg_tile_map_display_select { 0x08u8 } else { 0 }) | (
        if lcdc.obj_size == SpriteSize::Large {
            0x04u8
        } else {
            0
        })) | ((if lcdc.obj_display_enable { 0x02u8 } else { 0 }) | (if lcdc.bg_display {
            0x01u8
        } else {
            0
        })))
    }
}

impl vstd::std_specs::convert::FromSpecImpl<LCDC> for u8 {
    open spec fn obeys_from_spec() -> bool {
        true
    }

    open spec fn from_spec(lcdc: LCDC) -> u8 {
        lcdc_byte(lcdc)
    }
}

/// Every LCDC byte reads back as written.
pub proof fn lemma_lcdc_round_trip(f: u8)
    ensures
        lcdc_byte(lcdc_of(f)) == f,
{
    let l = lcdc_of(f);
    assert(l.obj_size == SpriteSize::Large <==> f & 0x04 != 0);
    assert((bit(f & 0x80 != 0, 0x80) + bit(f & 0x40 != 0, 0x40) + bit(f & 0x20 != 0, 0x20) + bit(
        f & 0x10 != 0,
        0x10,
    ) + bit(f & 0x08 != 0, 0x08) + bit(f & 0x04 != 0, 0x04) + bit(f & 0x02 != 0, 0x02) + bit(
        f & 0x01 != 0,
        0x01,
    )) as u8 == f) by (bit_vector);
}

/// The STAT register: interrupt selections, the coincidence flag, the mode.
#[derive(PartialEq, Eq, Structural, Copy, Clone)]
pub struct STAT {
    pub lyc_equals_lc: bool,
    pub mode_2_oam: bool,
    pub mode_1_vblank: bool,
    pub mode_0_hblank: bool,
    pub coincidence: bool,
    pub mode: Mode,
}

/// The number that STAT reports for a mode.
pub open spec fn mode_number(mode: Mode) -> u8 {
    match mode {
        Mode::HBlank => 0,
        Mode::VBlank => 1,
        Mode::OAM => 2,
        Mode::VRAM => 3,
    }
}

/// The byte that reading the STAT register gives.
pub open spec fn stat_byte(s: STAT) -> u8 {
    (bit(s.lyc_equals_lc, 0x40) + bit(s.mode_2_oam, 0x20) + bit(s.mode_1_vblank, 0x10) + bit(
        s.mode_0_hblank,
        0x08,
    ) + bit(s.coincidence, 0x04) + mode_number(s.mode)) as u8
}

impl STAT {
    pub fn default() -> (r: Self)
        ensures
            r == (STAT {
                lyc_equals_lc: false,
                mode_2_oam: false,
                mode_1_vblank: false,
                mode_0_hblank: false,
                coincidence: false,
                mode: Mode::OAM,
            }),
    {
        STAT {
            lyc_equals_lc: false,
            mode_2_oam: false,
            mode_1_vblank: false,
            mode_0_hblank: false,
            coincidence: false,
            mode: Mode::OAM,
        }
    }

    /// A write to STAT: only the four interrupt selections are writable.
    pub fn update(&mut self, f: u8)
        ensures
            *final(self) == (STAT {
                lyc_equals_lc: f & 0x40 != 0,
                mode_2_oam: f & 0x20 != 0,
                mode_1_vblank: f & 0x10 != 0,
                mode_0_hblank: f & 0x08 != 0,
                ..*old(self)
            }),
    {
        self.lyc_equals_lc = f & 0x40 != 0;
        self.mode_2_oam = f & 0x20 != 0;
        self.mode_1_vblank = f & 0x10 != 0;
        self.mode_0_hblank = f & 0x08 != 0;
    }
}

impl From<STAT> for u8 {
    fn from(s: STAT) -> (r: u8) {
        let m: u8 = match s.mode {
            Mode::HBlank => 0x00,
            Mode::VBlank => 0x01,
            Mode::OAM => 0x02,
            Mode::VRAM => 0x03,
        };
        proof {
            let (a, b, c, d, e) = (
                bit(s.lyc_equals_lc, 0x40),
                bit(s.mode_2_oam, 0x20),
                bit(s.mode_1_vblank, 0x10),
                bit(s.mode_0_hblank, 0x08),
                bit(s.coincidence, 0x04),
            );
            assert((a == 0 || a == 0x40) && (b == 0 || b == 0x20) && (c == 0 || c == 0x10) && (d
                == 0 || d == 0x08) && (e == 0 || e == 0x04) && m <= 3 ==> (a | b | c | d | e | m)
                == (a + b + c + d + e + m) as u8) by (bit_vector);
        }
        (if s.lyc_equals_lc { 0x40u8 } else { 0 }) | (if s.mode_2_oam { 0x20u8 } else { 0 }) | (
        if s.mode_1_vblank {
            0x10u8
        } else {
            0
        }) | (if s.mode_0_hblank { 0x08u8 } else { 0 }) | (if s.coincidence { 0x04u8 } else { 0 })
            | m
    }
}

impl vstd::std_specs::convert::FromSpecImpl<STAT> for u8 {
    open spec fn obeys_from_spec() -> bool {
        true
    }

    open spec fn from_spec(s: STAT) -> u8 {
        stat_byte(s)
    }
}

/// A STAT write sets the four selection bits that a read then reports; the
/// coincidence flag and the mode read as the controller left them.
pub proof fn lemma_stat_write_read(s: STAT, post: STAT, f: u8)
    requires
        post == (STAT {
            lyc_equals_lc: f & 0x40 != 0,
            mode_2_oam: f & 0x20 != 0,
            mode_1_vblank: f & 0x10 != 0,
            mode_0_hblank: f & 0x08 != 0,
            ..s
        }),
    ensures
        stat_byte(post) & 0x78 == f & 0x78,
        stat_byte(post) & 0x07 == stat_byte(s) & 0x07,
        stat_byte(post) & 0x03 == mode_number(s.mode),
{
    let c = bit(s.coincidence, 0x04);
    let m = mode_number(s.mode);
    assert((c == 0 || c == 0x04) && m <= 3 ==> ({
        let p = (bit(f & 0x40 != 0, 0x40) + bit(f & 0x20 != 0, 0x20) + bit(f & 0x10 != 0, 0x10)
            + bit(f & 0x08 != 0, 0x08) + c + m) as u8;
        &&& p & 0x78 == f & 0x78
        &&& p & 0x07 == c + m
        &&& p & 0x03 == m
    })) by (bit_vector);
    let a = bit(s.lyc_equals_lc, 0x40);
    let b = bit(s.mode_2_oam, 0x20);
    let d = bit(s.mode_1_vblank, 0x10);
    let e = bit(s.mode_0_hblank, 0x08);
    assert((a == 0 || a == 0x40) && (b == 0 || b == 0x20) && (d == 0 || d == 0x10) && (e == 0
        || e == 0x08) && (c == 0 || c == 0x04) && m <= 3 ==> ((a + b + d + e + c + m) as u8)
        & 0x07 == c + m) by (bit_vector);
}

/// A shade of gray of the monochrome palettes.
#[derive(PartialEq, Eq, Structural, Copy, Clone)]
pub enum GrayShades {
    White,
    LightGray,
    DarkGray,
    Black,
}

/// The shade that a two-bit value names.
pub open spec fn shade_of(v: u8) -> GrayShades {
    if v & 0x03 == 0 {
        GrayShades::White
    } else if v & 0x03 == 1 {
        GrayShades::LightGray
    } else if v & 0x03 == 2 {
        GrayShades::DarkGray
    } else {
        GrayShades::Black
    }
}

/// The two-bit value of a shade.
pub open spec fn shade_number(s: GrayShades) -> u8 {
    match s {
        GrayShades::White => 0,
        GrayShades::LightGray => 1,
        GrayShades::DarkGray => 2,
        GrayShades::Black => 3,
    }
}

/// The gray level, the same for red, green and blue, of a shade.
pub open spec fn gray_level(s: GrayShades) -> u8 {
    match s {
        GrayShades::White => 255,
        GrayShades::LightGray => 170,
        GrayShades::DarkGray => 85,
        GrayShades::Black => 0,
    }
}

fn shade_from_u8(v: u8) -> (r: GrayShades)
    ensures
        r == shade_of(v),
{
    match v & 0x03 {
        0 => GrayShades::White,
        1 => GrayShades::LightGray,
        2 => GrayShades::DarkGray,
        _ => GrayShades::Black,
    }
}

fn shade_to_u8(s: GrayShades) -> (r: u8)
    ensures
        r == shade_number(s),
{
    match s {
        GrayShades::White => 0,
        GrayShades::LightGray => 1,
        GrayShades::DarkGray => 2,
        GrayShades::Black => 3,
    }
}

/// A colour as red, green and blue intensities.
#[derive(Copy, Clone)]
pub struct Color {
    pub rgb: [u8; 3],
}

impl Color {
    pub fn new(r: u8, g: u8, b: u8) -> (c: Color)
        ensures
            c.rgb@ == seq![r, g, b],
    {
        let c = Color { rgb: [r, g, b] };
        assert(c.rgb@ =~= seq![r, g, b]);
        c
    }
}

/// The 8-bit intensity of a 5-bit colour channel.
pub open spec fn channel(c: u16, shift: int) -> u8 {
    ((((c as int) / pow2_16(shift)) % 32) * 8) as u8
}

/// Two to the power of a small shift.
pub open spec fn pow2_16(shift: int) -> int {
    if shift == 0 {
        1
    } else if shift == 5 {
        32
    } else {
        1024
    }
}

/// Something that maps a two-bit colour number to a colour.
pub trait Palette {
    spec fn color_spec(&self, color: u8) -> Seq<u8>;

    fn color(&self, color: u8) -> (r: Color)
        ensures
            r.rgb@ == self.color_spec(color),
    ;
}

/// A monochrome palette register: a shade for each colour number.
#[derive(Copy, Clone)]
pub struct MonoPalette {
    pub color: [GrayShades; 4],
}

/// The palette that a byte written to a monochrome palette register sets.
pub open spec fn mono_of(f: u8) -> Seq<GrayShades> {
    seq![shade_of(f), shade_of(f >> 2), shade_of(f >> 4), shade_of(f >> 6)]
}

/// The byte that reading a monochrome palette register gives.
pub open spec fn mono_byte(p: Seq<GrayShades>) -> u8 {
    (shade_number(p[3]) * 64 + shade_number(p[2]) * 16 + shade_number(p[1]) * 4 + shade_number(
        p[0],
    )) as u8
}

impl MonoPalette {
    pub fn default() -> (r: Self)
        ensures
            r.color@ == mono_of(0),
    {
        let r = MonoPalette { color: [GrayShades::White;4] };
        proof {
            bytes::lemma_byte_arith(0);
        }
        assert(r.color@ =~= mono_of(0));
        r
    }
}

impl Palette for MonoPalette {
    open spec fn color_spec(&self, color: u8) -> Seq<u8> {
        let g = gray_level(self.color@[(color & 0x03) as int]);
        seq![g, g, g]
    }

    fn color(&self, color: u8) -> (r: Color) {
        proof {
            bytes::lemma_masks(color);
        }
        let shade = shade_to_u8(self.color[(color & 0x03) as usize]);
        proof {
            bytes::lemma_byte_arith(shade);
        }
        match shade & 0x03 {
            0x00 => Color::new(255, 255, 255),
            0x01 => Color::new(170, 170, 170),
            0x02 => Color::new(85, 85, 85),
            _ => Color::new(0, 0, 0),
        }
    }
}

/// The palette that a byte written to a monochrome palette register sets.
pub fn mono_palette(f: u8) -> (r: MonoPalette)
    ensures
        r.color@ == mono_of(f),
{
    let r = MonoPalette {
        color: [
            shade_from_u8(f & 0x03),
            shade_from_u8((f >> 2) & 0x03),
            shade_from_u8((f >> 4) & 0x03),
            shade_from_u8((f >> 6) & 0x03),
        ],
    };
    proof {
        bytes::lemma_byte_arith(f);
        assert(r.color@ =~= mono_of(f));
    }
    r
}

impl From<MonoPalette> for u8 {
    fn from(mp: MonoPalette) -> (r: u8) {
        let c3 = shade_to_u8(mp.color[3]);
        let c2 = shade_to_u8(mp.color[2]);
        let c1 = shade_to_u8(mp.color[1]);
        let c0 = shade_to_u8(mp.color[0]);
        assert(c3 <= 3 && c2 <= 3 && c1 <= 3 && c0 <= 3 ==> (c3 << 6 | c2 << 4 | c1 << 2 | c0) == (
        c3 * 64 + c2 * 16 + c1 * 4 + c0) as u8) by (bit_vector);
        c3 << 6 | c2 << 4 | c1 << 2 | c0
    }
}

impl vstd::std_specs::convert::FromSpecImpl<MonoPalette> for u8 {
    open spec fn obeys_from_spec() -> bool {
        true
    }

    open spec fn from_spec(mp: MonoPalette) -> u8 {
        mono_byte(mp.color@)
    }
}

/// Every monochrome palette byte reads back as written.
pub proof fn lemma_mono_round_trip(f: u8)
    ensures
        mono_byte(mono_of(f)) == f,
{
    let (a, b, c, d) = (f & 0x03, (f >> 2) & 0x03, (f >> 4) & 0x03, (f >> 6) & 0x03);
    bytes::lemma_masks(f);
    bytes::lemma_byte_arith(f);
    assert(shade_number(shade_of(f)) == a);
    assert(shade_number(shade_of(f >> 2)) == b);
    assert(shade_number(shade_of(f >> 4)) == c);
    assert(shade_number(shade_of(f >> 6)) == d);
}

/// A colour palette: four colours.
pub struct ColorPalette {
    pub color: [Color; 4],
}

/// The colour that a 15-bit colour value stands for.
pub open spec fn color_of(c: u16) -> Seq<u8> {
    seq![channel(c, 0), channel(c, 5), channel(c, 10)]
}

impl Palette for ColorPalette {
    open spec fn color_spec(&self, color: u8) -> Seq<u8> {
        self.color@[(color & 0x03) as int].rgb@
    }

    fn color(&self, color: u8) -> (r: Color) {
        proof {
            bytes::lemma_masks(color);
        }
        self.color[(color & 0x03) as usize]
    }
}

impl ColorPalette {
    pub fn from_u16(color0: u16, color1: u16, color2: u16, color3: u16) -> (r: Self)
        ensures
            r.color@[0].rgb@ == color_of(color0),
            r.color@[1].rgb@ == color_of(color1),
            r.color@[2].rgb@ == color_of(color2),
            r.color@[3].rgb@ == color_of(color3),
    {
        Self { color: [color_from(color0), color_from(color1), color_from(color2), color_from(color3)] }
    }
}

fn color_from(c: u16) -> (r: Color)
    ensures
        r.rgb@ == color_of(c),
{
    proof {
        bytes::lemma_word_arith(c);
    }
    Color::new(
        ((c & 0x001f) * 8) as u8,
        (((c & 0x03e0) >> 5) * 8) as u8,
        (((c & 0x7c00) >> 10) * 8) as u8,
    )
}


/// The attributes byte of a sprite, decoded.
#[derive(Copy, Clone)]
pub struct SpriteAttributes {
    pub priority: bool,
    pub reverse_y: bool,
    pub reverse_x: bool,
    pub palette: u8,
    pub bank: usize,
    pub color_palette: u8,
}

/// The sprite attributes that a byte encodes.
pub open spec fn sprite_attributes_of(f: u8) -> SpriteAttributes {
    SpriteAttributes {
        priority: f & 0x80 != 0,
        reverse_y: f & 0x40 != 0,
        reverse_x: f & 0x20 != 0,
        palette: (f & 0x10) >> 4,
        bank: ((f & 0x08) >> 3) as usize,
        color_palette: f & 0x07,
    }
}

impl From<u8> for SpriteAttributes {
    fn from(f: u8) -> (r: SpriteAttributes) {
        SpriteAttributes {
            priority: f & 0x80 != 0,
            reverse_y: f & 0x40 != 0,
            reverse_x: f & 0x20 != 0,
            palette: (f & 0x10) >> 4,
            bank: ((f & 0x08) >> 3) as usize,
            color_palette: f & 0x07,
        }
    }
}

impl vstd::std_specs::convert::FromSpecImpl<u8> for SpriteAttributes {
    open spec fn obeys_from_spec() -> bool {
        true
    }

    open spec fn from_spec(f: u8) -> SpriteAttributes {
        sprite_attributes_of(f)
    }
}

/// A sprite as its four bytes in OAM describe it, with its number.
#[derive(Copy, Clone)]
pub struct SpriteInfo {
    pub id: u8,
    pub x: u8,
    pub y: u8,
    pub tile: u8,
    pub flags: SpriteAttributes,
}

/// The attributes byte of a background map entry, decoded.
#[derive(Copy, Clone)]
pub struct BGMapAttributes {
    pub palette: u8,
    pub bank: usize,
    pub reverse_x: bool,
    pub reverse_y: bool,
    pub priority: bool,
}

/// The background map attributes that a byte encodes.
pub open spec fn bg_attributes_of(f: u8) -> BGMapAttributes {
    BGMapAttributes {
        palette: f & 0x07,
        bank: ((f & 0x08) >> 3) as usize,
        reverse_x: (f & 0x20) != 0,
        reverse_y: (f & 0x40) != 0,
        priority: (f & 0x80) != 0,
    }
}

impl BGMapAttributes {
    pub fn default() -> (r: Self)
        ensures
            r == bg_attributes_of(0),
    {
        assert(bg_attributes_of(0) == BGMapAttributes {
            palette: 0,
            bank: 0,
            reverse_x: false,
            reverse_y: false,
            priority: false,
        }) by (bit_vector);
        BGMapAttributes { palette: 0, bank: 0, reverse_x: false, reverse_y: false, priority: false }
    }
}

pub proof fn lemma_bg_attributes_bounds(f: u8)
    ensures
        bg_attributes_of(f).bank <= 1,
        bg_attributes_of(f).palette <= 7,
{
    bytes::lemma_masks(f);
    bytes::lemma_byte_arith(f);
}

impl From<u8> for BGMapAttributes {
    fn from(f: u8) -> (r: BGMapAttributes) {
        BGMapAttributes {
            palette: f & 0x07,
            bank: ((f & 0x08) >> 3) as usize,
            reverse_x: (f & 0x20) != 0,
            reverse_y: (f & 0x40) != 0,
            priority: (f & 0x80) != 0,
        }
    }
}

impl vstd::std_specs::convert::FromSpecImpl<u8> for BGMapAttributes {
    open spec fn obeys_from_spec() -> bool {
        true
    }

    open spec fn from_spec(f: u8) -> BGMapAttributes {
        bg_attributes_of(f)
    }
}

/// The registers of the display controller.
pub struct Registers {
    pub lcdc: LCDC,
    pub stat: STAT,
    pub scy: u8,
    pub scx: u8,
    pub ly: u8,
    pub lyc: u8,
    pub wy: u8,
    pub wx: u8,
    pub bgp: MonoPalette,
    pub obp0: MonoPalette,
    pub obp1: MonoPalette,
    pub bgpi: u8,
    pub bgpd: Vec<u8>,
    pub obpi: u8,
    pub obpd: Vec<u8>,
    pub dma_source: u16,
    pub dma_dest: u16,
    pub hdma_type: HDMA,
    pub hdma_transfer: u8,
}

/// The registers after a write to HDMA5, which starts, or stops, a transfer
/// into video RAM.
pub open spec fn hdma_start(r: Registers, value: u8) -> Registers {
    if r.hdma_type == HDMA::HDMA {
        if value & 0x80 == 0 {
            Registers { hdma_transfer: r.hdma_transfer | 0x80, hdma_type: HDMA::Idle, ..r }
        } else {
            r
        }
    } else {
        Registers {
            dma_source: r.dma_source & 0xfff0,
            dma_dest: r.dma_dest & 0x1ff0,
            hdma_type: if value & 0x80 != 0 {
                HDMA::HDMA
            } else {
                HDMA::GDMA
            },
            hdma_transfer: value & 0x7f,
            ..r
        }
    }
}

/// The colour palette index register after a write through its data
/// register: it steps on when its top bit asks for that.
pub open spec fn next_palette_index(i: u8) -> u8 {
    if i & 0x80 != 0 {
        (((i & 0x3f) + 1) % 256) as u8 | 0x80
    } else {
        i
    }
}

/// The index into video RAM of an address of `0x8000 ..= 0x9fff`.
pub open spec fn vram_index(bank: u8, address: u16) -> int {
    0x2000 * bank + (address - 0x8000)
}

/// The video RAM after one 16-byte block is copied to `base` from `src`.
#[verifier::opaque]
pub open spec fn block_video(video: Seq<u8>, base: int, src: u16, mem: Memory) -> Seq<u8> {
    Seq::new(
        video.len(),
        |j: int|
            if base <= j < base + 16 {
                mem.load_spec(((src & 0xfff0) + (j - base)) as u16)
            } else {
                video[j]
            },
    )
}

/// Where in video RAM a block copy to the destination register lands.
pub open spec fn block_base(bank: u8, dest: u16) -> int {
    vram_index(bank, (dest & 0x1ff0) | 0x8000)
}

/// The transfer step does not touch STAT or the line counter.
pub proof fn lemma_hdma_regs_frame(r: Registers, stat: STAT, ly: u8)
    ensures
        hdma_regs(Registers { stat, ly, ..r }) == (Registers { stat, ly, ..hdma_regs(r) }),
        transfer_of(Registers { stat, ly, ..r }) == transfer_of(r),
{
}

/// The video RAM after `n` block copies from `src` to `dest`, each one 16
/// bytes further on.
#[verifier::opaque]
pub open spec fn blocks_video(
    video: Seq<u8>,
    bank: u8,
    src: u16,
    dest: u16,
    n: nat,
    mem: Memory,
) -> Seq<u8>
    decreases n,
{
    if n == 0 {
        video
    } else {
        blocks_video(
            block_video(video, block_base(bank, dest), src, mem),
            bank,
            ((src + 0x10) % 0x10000) as u16,
            ((dest + 0x10) % 0x10000) as u16,
            (n - 1) as nat,
            mem,
        )
    }
}

/// One step of the scan-line state machine while the display is on: the
/// mode, the ticks into it, the line, and whether a frame was finished.
pub open spec fn scan(mode: Mode, mode_timing: int, ly: u8) -> (Mode, int, u8, bool) {
    match mode {
        Mode::OAM => if mode_timing >= 80 {
            (Mode::VRAM, mode_timing - 80, ly, false)
        } else {
            (Mode::OAM, mode_timing, ly, false)
        },
        Mode::VRAM => if mode_timing >= 172 {
            (Mode::HBlank, mode_timing - 172, ly, false)
        } else {
            (Mode::VRAM, mode_timing, ly, false)
        },
        Mode::HBlank => if mode_timing >= 204 {
            let l = (ly + 1) as u8;
            (
                if l >= SCREEN_HEIGHT {
                    Mode::VBlank
                } else {
                    Mode::OAM
                },
                mode_timing - 204,
                l,
                false,
            )
        } else {
            (Mode::HBlank, mode_timing, ly, false)
        },
        Mode::VBlank => if mode_timing >= 4560 {
            (Mode::OAM, mode_timing - 4560, 0, true)
        } else {
            (Mode::VBlank, mode_timing, (mode_timing / 456 + SCREEN_HEIGHT) as u8, false)
        },
    }
}


/// The transfer registers after one 16-byte block.
pub open spec fn block_regs(r: Registers) -> Registers {
    let t = ((r.hdma_transfer + 255) % 256) as u8;
    Registers {
        dma_source: ((r.dma_source + 0x10) % 0x10000) as u16,
        dma_dest: ((r.dma_dest + 0x10) % 0x10000) as u16,
        hdma_transfer: t,
        hdma_type: if t == 0xff {
            HDMA::Idle
        } else {
            r.hdma_type
        },
        ..r
    }
}

/// The transfer registers after the transfer step: a general transfer
/// copies all its blocks at once, an HBlank transfer copies one block.
pub open spec fn hdma_regs(r: Registers) -> Registers {
    match r.hdma_type {
        HDMA::GDMA => Registers {
            dma_source: ((r.dma_source + 0x10 * (r.hdma_transfer + 1)) % 0x10000) as u16,
            dma_dest: ((r.dma_dest + 0x10 * (r.hdma_transfer + 1)) % 0x10000) as u16,
            hdma_transfer: 0xff,
            hdma_type: HDMA::Idle,
            ..r
        },
        HDMA::HDMA => block_regs(r),
        HDMA::Idle => r,
    }
}

/// Video RAM after the transfer step.
/// The registers that a transfer into video RAM works from.
pub open spec fn transfer_of(r: Registers) -> (HDMA, u16, u16, u8) {
    (r.hdma_type, r.dma_source, r.dma_dest, r.hdma_transfer)
}

/// Video RAM after the transfer step that the transfer registers `t` call for.
#[verifier::opaque]
pub open spec fn hdma_video(
    video: Seq<u8>,
    bank: u8,
    t: (HDMA, u16, u16, u8),
    mem: Memory,
    access: bool,
) -> Seq<u8> {
    let (kind, src, dest, count) = t;
    if !access {
        video
    } else {
        match kind {
            HDMA::GDMA => blocks_video(video, bank, src, dest, (count + 1) as nat, mem),
            HDMA::HDMA => block_video(video, block_base(bank, dest), src, mem),
            HDMA::Idle => video,
        }
    }
}

/// The interrupt flags after the controller enters `mode` from the mode
/// that `stat` holds.
pub open spec fn raise_mode_irq(flag: u8, stat: STAT, mode: Mode) -> u8 {
    if stat.mode == mode {
        flag
    } else {
        let f = if (mode == Mode::HBlank && stat.mode_0_hblank) || (mode == Mode::VBlank
            && stat.mode_1_vblank) || (mode == Mode::OAM && stat.mode_2_oam) {
            flag | 0x02
        } else {
            flag
        };
        if mode == Mode::VBlank {
            f | 0x01
        } else {
            f
        }
    }
}

/// Whether the interrupt flags `post` come from `flag` by raising requests
/// of the display only: V-blank (bit 0) and STAT (bit 1) may be set, no
/// flag is cleared and no other flag changes.
pub open spec fn raised_only(flag: u8, post: u8) -> bool {
    post & 0xfc == flag & 0xfc && post & flag == flag
}

/// Leaving the flags, or setting bit 0 or bit 1, raises only; so does one
/// such change after another.
proof fn lemma_raised_only(a: u8, b: u8, c: u8)
    ensures
        raised_only(a, a),
        raised_only(a, a | 0x01),
        raised_only(a, a | 0x02),
        raised_only(a, b) && raised_only(b, c) ==> raised_only(a, c),
{
    assert({
        &&& a & 0xfc == a & 0xfc && a & a == a
        &&& (a | 0x01) & 0xfc == a & 0xfc && (a | 0x01) & a == a
        &&& (a | 0x02) & 0xfc == a & 0xfc && (a | 0x02) & a == a
        &&& (b & 0xfc == a & 0xfc && b & a == a && c & 0xfc == b & 0xfc && c & b == b) ==> (c
            & 0xfc == a & 0xfc && c & a == a)
    }) by (bit_vector);
}

/// A change of mode raises only the display's interrupt requests.
proof fn lemma_raise_mode_irq(flag: u8, stat: STAT, mode: Mode)
    ensures
        raised_only(flag, raise_mode_irq(flag, stat, mode)),
{
    let f = if (mode == Mode::HBlank && stat.mode_0_hblank) || (mode == Mode::VBlank
        && stat.mode_1_vblank) || (mode == Mode::OAM && stat.mode_2_oam) {
        flag | 0x02
    } else {
        flag
    };
    lemma_raised_only(flag, f, f | 0x01);
    lemma_raised_only(f, 0, 0);
}

/// A change of the controller into a mode whose STAT source is selected
/// (HBlank by bit 3, VBlank by bit 4, OAM by bit 5) requests the STAT
/// interrupt (bit 1 of IF), a change into VBlank requests the V-blank
/// interrupt (bit 0), a change into a mode whose source is not selected
/// requests no STAT interrupt, and staying in the same mode requests nothing.
pub proof fn lemma_mode_change_requests(flag: u8, stat: STAT, mode: Mode)
    ensures
        ({
            let selected = (mode == Mode::HBlank && stat.mode_0_hblank) || (mode == Mode::VBlank
                && stat.mode_1_vblank) || (mode == Mode::OAM && stat.mode_2_oam);
            let post = raise_mode_irq(flag, stat, mode);
            &&& stat.mode != mode && selected ==> post & 0x02 == 0x02
            &&& stat.mode != mode && !selected ==> post & 0x02 == flag & 0x02
            &&& stat.mode != mode && mode == Mode::VBlank ==> post & 0x01 == 0x01
            &&& mode != Mode::VBlank ==> post & 0x01 == flag & 0x01
            &&& stat.mode == mode ==> post == flag
            &&& post & 0xfc == flag & 0xfc
        }),
{
    assert({
        &&& (flag | 0x02) & 0x02 == 0x02
        &&& ((flag | 0x02) | 0x01) & 0x02 == 0x02
        &&& (flag | 0x01) & 0x02 == flag & 0x02
        &&& (flag | 0x01) & 0x01 == 0x01
        &&& ((flag | 0x02) | 0x01) & 0x01 == 0x01
        &&& (flag | 0x02) & 0x01 == flag & 0x01
    }) by (bit_vector);
    lemma_raise_mode_irq(flag, stat, mode);
}

/// Whether CPU access to OAM and to video RAM is let through in a mode.
pub open spec fn access_in(mode: Mode) -> (bool, bool) {
    match mode {
        Mode::OAM => (false, true),
        Mode::VRAM => (false, false),
        _ => (true, true),
    }
}

/// The display controller: its registers, video RAM, OAM and the screen.
pub struct LCD {
    pub regs: Registers,
    pub done_frame: bool,
    pub cgb: bool,
    pub enabled: bool,
    pub mode_timing: u16,
    pub vram_access: bool,
    pub video: Vec<u8>,
    pub video_bank: u8,
    pub oam_access: bool,
    pub oam: [u8; 0xa0],
    pub screen: Vec<u8>,
}

/// Whether the display controller answers the address.
pub open spec fn lcd_address(address: u16) -> bool {
    (0x8000 <= address <= 0x9fff) || (0xfe00 <= address <= 0xfe9f) || (0xff40 <= address <= 0xff4b)
        || address == 0xff4f || (0xff51 <= address <= 0xff55) || (0xff68 <= address <= 0xff6b)
}

impl LCD {
    pub open spec fn wf(&self) -> bool {
        &&& self.video@.len() == VIDEO_BYTES
        &&& self.screen@.len() == SCREEN_BYTES
        &&& self.video_bank <= 1
        &&& self.regs.bgpd@.len() == 0x40
        &&& self.regs.obpd@.len() == 0x40
        &&& self.regs.ly <= LAST_LINE
        &&& self.regs.stat.mode != Mode::VBlank ==> self.regs.ly < SCREEN_HEIGHT
        &&& !self.enabled ==> self.regs.ly == 0
        &&& self.regs.hdma_type != HDMA::Idle ==> self.regs.hdma_transfer <= 0x7f
    }

    /// What a read of a register or memory of the display controller gives.
    pub open spec fn read_spec(&self, address: u16) -> u8 {
        if 0x8000 <= address <= 0x9fff {
            if self.vram_access {
                self.video@[vram_index(self.video_bank, address)]
            } else {
                0
            }
        } else if 0xfe00 <= address <= 0xfe9f {
            if self.oam_access {
                self.oam@[address - 0xfe00]
            } else {
                0
            }
        } else if address == 0xff40 {
            lcdc_byte(self.regs.lcdc)
        } else if address == 0xff41 {
            stat_byte(self.regs.stat)
        } else if address == 0xff42 {
            self.regs.scy
        } else if address == 0xff43 {
            self.regs.scx
        } else if address == 0xff44 {
            self.regs.ly
        } else if address == 0xff45 {
            self.regs.lyc
        } else if address == 0xff46 {
            0xff
        } else if address == 0xff47 {
            mono_byte(self.regs.bgp.color@)
        } else if address == 0xff48 {
            mono_byte(self.regs.obp0.color@)
        } else if address == 0xff49 {
            mono_byte(self.regs.obp1.color@)
        } else if address == 0xff4a {
            self.regs.wy
        } else if address == 0xff4b {
            self.regs.wx
        } else if address == 0xff4f {
            self.video_bank
        } else if address == 0xff51 {
            ((self.regs.dma_source & 0xf0) >> 8) as u8
        } else if address == 0xff52 {
            (self.regs.dma_source & 0x0f) as u8
        } else if address == 0xff53 {
            ((self.regs.dma_dest & 0xf0) >> 8) as u8
        } else if address == 0xff54 {
            (self.regs.dma_dest & 0x0f) as u8
        } else if address == 0xff55 {
            self.regs.hdma_transfer
        } else if address == 0xff68 {
            self.regs.bgpi
        } else if address == 0xff69 {
            self.regs.bgpd@[(self.regs.bgpi & 0x3f) as int]
        } else if address == 0xff6a {
            self.regs.obpi
        } else {
            self.regs.obpd@[(self.regs.obpi & 0x3f) as int]
        }
    }

    /// The registers with a write to one of them applied.
    pub open spec fn regs_written(self, post: Registers, mem: Memory, address: u16, value: u8) -> bool {
        let r = self.regs;
        if address == 0xff40 {
            post == Registers { lcdc: lcdc_of(value), ..r }
        } else if address == 0xff41 {
            post == Registers {
                stat: STAT {
                    lyc_equals_lc: value & 0x40 != 0,
                    mode_2_oam: value & 0x20 != 0,
                    mode_1_vblank: value & 0x10 != 0,
                    mode_0_hblank: value & 0x08 != 0,
                    ..r.stat
                },
                ..r
            }
        } else if address == 0xff42 {
            post == Registers { scy: value, ..r }
        } else if address == 0xff43 {
            post == Registers { scx: value, ..r }
        } else if address == 0xff45 {
            post == Registers { lyc: value, ..r }
        } else if address == 0xff47 {
            post.bgp.color@ == mono_of(value) && post == Registers { bgp: post.bgp, ..r }
        } else if address == 0xff48 {
            post.obp0.color@ == mono_of(value) && post == Registers { obp0: post.obp0, ..r }
        } else if address == 0xff49 {
            post.obp1.color@ == mono_of(value) && post == Registers { obp1: post.obp1, ..r }
        } else if address == 0xff4a {
            post == Registers { wy: value, ..r }
        } else if address == 0xff4b {
            post == Registers { wx: value, ..r }
        } else if address == 0xff51 {
            post == Registers { dma_source: ((value as u16) << 8u16) | (r.dma_source & 0x0f), ..r }
        } else if address == 0xff52 {
            post == Registers { dma_source: (value as u16) | (r.dma_source & 0xf0), ..r }
        } else if address == 0xff53 {
            post == Registers { dma_dest: ((value as u16) << 8u16) | (r.dma_dest & 0x0f), ..r }
        } else if address == 0xff54 {
            post == Registers { dma_dest: (value as u16) | (r.dma_dest & 0xf0), ..r }
        } else if address == 0xff55 {
            post == hdma_start(r, value)
        } else if address == 0xff68 {
            post == Registers { bgpi: value & 0xbf, ..r }
        } else if address == 0xff69 {
            &&& post.bgpd@ == r.bgpd@.update((r.bgpi & 0x3f) as int, value)
            &&& post == Registers { bgpd: post.bgpd, bgpi: next_palette_index(r.bgpi), ..r }
        } else if address == 0xff6a {
            post == Registers { obpi: value & 0xbf, ..r }
        } else {
            &&& post.obpd@ == r.obpd@.update((r.obpi & 0x3f) as int, value)
            &&& post == Registers { obpd: post.obpd, obpi: next_palette_index(r.obpi), ..r }
        }
    }

    /// How a write of `value` at `address` takes the controller to `post`.
    pub open spec fn write_post(self, post: LCD, mem: Memory, address: u16, value: u8) -> bool {
        if 0x8000 <= address <= 0x9fff {
            if self.vram_access {
                &&& post.video@ == self.video@.update(vram_index(self.video_bank, address), value)
                &&& post == LCD { video: post.video, ..self }
            } else {
                post == self
            }
        } else if 0xfe00 <= address <= 0xfe9f {
            if self.oam_access {
                &&& post.oam@ == self.oam@.update(address - 0xfe00, value)
                &&& post == LCD { oam: post.oam, ..self }
            } else {
                post == self
            }
        } else if address == 0xff44 {
            post == self
        } else if address == 0xff46 {
            if self.oam_access {
                &&& post.oam@ == Seq::new(
                    0xa0,
                    |k: int| mem.load_spec((value * 256 + k) as u16),
                )
                &&& post == LCD { oam: post.oam, ..self }
            } else {
                post == self
            }
        } else if address == 0xff4f {
            post == LCD { video_bank: value & 0x01, ..self }
        } else {
            &&& self.regs_written(post.regs, mem, address, value)
            &&& post == LCD { regs: post.regs, ..self }
        }
    }


    /// One step of an enabled display whose mode and tick count are already
    /// up to date, from video RAM `v0`: `post` and `post_flag` are the
    /// controller and the interrupt flags afterwards.  Entering HBlank draws
    /// the line.
    pub open spec fn ticked(self, v0: Seq<u8>, post: LCD, flag: u8, post_flag: u8, mem: Memory) -> bool {
        let stat = self.regs.stat;
        let (m1, mt1, ly1, done) = scan(stat.mode, self.mode_timing as int, self.regs.ly);
        let f1 = raise_mode_irq(flag, stat, m1);
        let coincidence = ly1 == self.regs.lyc;
        let drew = stat.mode == Mode::VRAM && m1 == Mode::HBlank;
        let r1 = Registers { ly: ly1, stat: STAT { mode: m1, coincidence, ..stat }, ..self.regs };
        &&& post_flag == (if coincidence && stat.lyc_equals_lc {
            f1 | 0x02
        } else {
            f1
        })
        &&& post.regs == (if drew {
            hdma_regs(r1)
        } else {
            r1
        })
        &&& post.video@ == (if drew {
            hdma_video(v0, self.video_bank, transfer_of(r1), mem, true)
        } else {
            v0
        })
        &&& if drew {
            line_drawn(
                LCD {
                    regs: Registers { stat: STAT { mode: Mode::HBlank, ..stat }, ..self.regs },
                    mode_timing: mt1 as u16,
                    ..self
                },
                self.regs.ly,
                post.screen@,
            )
        } else {
            post.screen == self.screen
        }
        &&& post == LCD {
            regs: post.regs,
            video: post.video,
            screen: post.screen,
            done_frame: done,
            oam_access: access_in(m1).0,
            vram_access: access_in(m1).1,
            mode_timing: mt1 as u16,
            ..self
        }
    }

    /// What `timing` more ticks of the controller do while the display is
    /// on, from registers `r0` and video RAM `v0` (the rest as in `self`):
    /// `post` and `post_flag` are the controller and the interrupt flags
    /// afterwards.
    #[verifier::opaque]
    pub open spec fn ran_on(
        self,
        r0: Registers,
        v0: Seq<u8>,
        post: LCD,
        flag: u8,
        post_flag: u8,
        mem: Memory,
        timing: Timing,
    ) -> bool {
        let stat = r0.stat;
        let m0 = if self.enabled {
            stat.mode
        } else {
            Mode::OAM
        };
        let f0 = if self.enabled {
            flag
        } else {
            raise_mode_irq(flag, stat, Mode::OAM)
        };
        let mt0 = (if self.enabled {
            self.mode_timing as int
        } else {
            0
        }) + timing;
        let pre = LCD {
            regs: Registers { stat: STAT { mode: m0, ..stat }, ..r0 },
            mode_timing: mt0 as u16,
            enabled: true,
            ..self
        };
        pre.ticked(v0, post, f0, post_flag, mem)
    }

    /// What `timing` more ticks of the controller do: `post` and `post_flag`
    /// are the controller and the interrupt flags afterwards.
    pub open spec fn advanced(
        self,
        post: LCD,
        flag: u8,
        post_flag: u8,
        mem: Memory,
        timing: Timing,
    ) -> bool {
        let gdma = self.regs.hdma_type == HDMA::GDMA;
        let r0 = if gdma {
            hdma_regs(self.regs)
        } else {
            self.regs
        };
        let v0 = if gdma {
            hdma_video(self.video@, self.video_bank, transfer_of(self.regs), mem, true)
        } else {
            self.video@
        };
        if !self.regs.lcdc.display_enable {
            &&& post_flag == (if self.enabled {
                raise_mode_irq(flag, r0.stat, Mode::HBlank)
            } else {
                flag
            })
            &&& post.video@ == v0
            &&& post.regs == (if self.enabled {
                Registers { ly: 0, stat: STAT { mode: Mode::HBlank, ..r0.stat }, ..r0 }
            } else {
                r0
            })
            &&& post == LCD {
                regs: post.regs,
                video: post.video,
                done_frame: false,
                oam_access: true,
                vram_access: true,
                mode_timing: if self.enabled {
                    0
                } else {
                    self.mode_timing
                },
                enabled: false,
                ..self
            }
        } else {
            exists|pre: LCD|
                #![trigger pre.video]
                {
                    &&& pre.video@ == v0
                    &&& pre == LCD {
                        regs: r0,
                        video: pre.video,
                        done_frame: false,
                        oam_access: true,
                        vram_access: true,
                        ..self
                    }
                    &&& pre.ran_on(r0, v0, post, flag, post_flag, mem, timing)
                }
        }
    }

    pub fn new(cgb: bool) -> (r: Self)
        ensures
            r.wf(),
            r.cgb == cgb,
            !r.enabled,
            !r.done_frame,
            r.mode_timing == 0,
            r.vram_access,
            r.oam_access,
            r.video_bank == 0,
            r.regs.ly == 0,
            r.regs.stat == (STAT {
                lyc_equals_lc: false,
                mode_2_oam: false,
                mode_1_vblank: false,
                mode_0_hblank: false,
                coincidence: false,
                mode: Mode::OAM,
            }),
            r.regs.lcdc == lcdc_of(0),
            r.regs.scy == 0 && r.regs.scx == 0 && r.regs.lyc == 0,
            r.regs.wy == 0 && r.regs.wx == 0,
            r.regs.bgp.color@ == mono_of(0),
            r.regs.obp0.color@ == mono_of(0),
            r.regs.obp1.color@ == mono_of(0),
            r.regs.bgpi == 0 && r.regs.obpi == 0,
            r.regs.dma_source == 0 && r.regs.dma_dest == 0,
            r.regs.hdma_type == HDMA::Idle,
            r.regs.hdma_transfer == 0,
            r.video@.len() == VIDEO_BYTES,
            r.screen@.len() == SCREEN_BYTES,
            r.regs.bgpd@.len() == 0x40 && r.regs.obpd@.len() == 0x40,
            forall|i: int| 0 <= i < VIDEO_BYTES ==> r.video@[i] == 0,
            forall|i: int| 0 <= i < SCREEN_BYTES ==> r.screen@[i] == 0xff,
            forall|i: int| 0 <= i < 0xa0 ==> r.oam@[i] == 0,
            forall|i: int| 0 <= i < 0x40 ==> r.regs.bgpd@[i] == 0xff && r.regs.obpd@[i] == 0xff,
    {
        Self {
            regs: Registers {
                lcdc: LCDC::default(),
                stat: STAT::default(),
                scy: 0,
                scx: 0,
                ly: 0,
                lyc: 0,
                wy: 0,
                wx: 0,
                bgp: MonoPalette::default(),
                obp0: MonoPalette::default(),
                obp1: MonoPalette::default(),
                bgpi: 0,
                bgpd: vec![0xff; 0x40],
                obpi: 0,
                obpd: vec![0xff; 0x40],
                dma_source: 0,
                dma_dest: 0,
                hdma_type: HDMA::Idle,
                hdma_transfer: 0,
            },
            done_frame: false,
            cgb,
            enabled: false,
            mode_timing: 0,
            vram_access: true,
            video: vec![0x00; VIDEO_BYTES],
            video_bank: 0,
            oam_access: true,
            oam: [0;0xa0],
            screen: vec![0xff; SCREEN_BYTES],
        }
    }

    /// The screen as four bytes per pixel, row by row.
    pub fn screen(&self) -> (r: &[u8])
        ensures
            r@ == self.screen@,
    {
        self.screen.as_slice()
    }

    /// The 32 by 32 tiles at the start of video RAM drawn with the
    /// background palette, as a 256 by 256 image of four bytes per pixel,
    /// row by row (the fourth byte of each is 0xff).
    pub fn tiles(&self) -> (r: Vec<u8>)
        requires
            self.wf(),
        ensures
            r@.len() == TILES_BYTES,
            forall|j: int| 0 <= j < TILES_BYTES ==> #[trigger] r@[j] == tile_image_byte(*self, j),
    {
        let mut data: Vec<u8> = vec![0xff; TILES_BYTES];
        let mut p: usize = 0;
        while p < 256 * 256
            invariant
                self.wf(),
                p <= 256 * 256,
                data@.len() == TILES_BYTES,
                forall|j: int| 0 <= j < p * 4 ==> #[trigger] data@[j] == tile_image_byte(*self, j),
                forall|j: int| p * 4 <= j < TILES_BYTES ==> #[trigger] data@[j] == 0xff,
            decreases 256 * 256 - p,
        {
            let (row, col) = (p / 256, p % 256);
            let (tile_y, pixel_y, tile_x, pixel_x) = (row / 8, row % 8, col / 8, 7 - col % 8);
            let address = (tile_y * 32 + tile_x) * 16 + pixel_y * 2;
            let (bottom, top) = (self.video[address], self.video[address + 1]);
            let color = LCD::color_number(pixel_x as u8, top, bottom);
            let pixel = self.regs.bgp.color(color);
            let mut i: usize = 0;
            while i < 3
                invariant
                    self.wf(),
                    p < 256 * 256,
                    i <= 3,
                    data@.len() == TILES_BYTES,
                    pixel.rgb@ == self.regs.bgp.color_spec(
                        crate::render::pixel_color(pixel_x as u8, top, bottom),
                    ),
                    address == ((p / 256 / 8) * 32 + (p % 256) / 8) * 16 + (p / 256 % 8) * 2,
                    top == self.video@[address + 1],
                    bottom == self.video@[address as int],
                    pixel_x == 7 - (p % 256) % 8,
                    forall|j: int| 0 <= j < p * 4 + i ==> #[trigger] data@[j] == tile_image_byte(*self, j),
                    forall|j: int| p * 4 + i <= j < TILES_BYTES ==> #[trigger] data@[j] == 0xff,
                decreases 3 - i,
            {
                assert((p * 4 + i) / 1024 == p / 256 && ((p * 4 + i) / 4) % 256 == p % 256 && (p * 4
                    + i) % 4 == i);
                data.set(p * 4 + i, pixel.rgb[i]);
                i = i + 1;
            }
            assert((p * 4 + 3) / 1024 == p / 256 && ((p * 4 + 3) / 4) % 256 == p % 256 && (p * 4 + 3)
                % 4 == 3);
            p = p + 1;
        }
        data
    }

    pub fn done_frame(&self) -> (r: bool)
        ensures
            r == self.done_frame,
    {
        self.done_frame
    }

    pub fn handle_read(&self, address: u16) -> (r: u8)
        requires
            self.wf(),
            lcd_address(address),
        ensures
            r == self.read_spec(address),
    {
        match address {
            0x8000..=0x9fff => {
                if self.vram_access {
                    let address = (0x2000 * self.video_bank as u16) + (address - 0x8000);
                    self.video[address as usize]
                } else {
                    0x00
                }
            },
            0xfe00..=0xfe9f => {
                if self.oam_access {
                    self.oam[address as usize - 0xfe00]
                } else {
                    0x00
                }
            },
            0xff40 => u8::from(self.regs.lcdc),
            0xff41 => u8::from(self.regs.stat),
            0xff42 => self.regs.scy,
            0xff43 => self.regs.scx,
            0xff44 => self.regs.ly,
            0xff45 => self.regs.lyc,
            0xff46 => 0xff,
            0xff47 => u8::from(self.regs.bgp),
            0xff48 => u8::from(self.regs.obp0),
            0xff49 => u8::from(self.regs.obp1),
            0xff4a => self.regs.wy,
            0xff4b => self.regs.wx,
            0xff4f => self.video_bank,
            0xff51 => ((self.regs.dma_source & 0xf0) >> 8) as u8,
            0xff52 => (self.regs.dma_source & 0x0f) as u8,
            0xff53 => ((self.regs.dma_dest & 0xf0) >> 8) as u8,
            0xff54 => (self.regs.dma_dest & 0x0f) as u8,
            0xff55 => self.regs.hdma_transfer,
            0xff68 => self.regs.bgpi,
            0xff69 => {
                proof {
                    bytes::lemma_masks(self.regs.bgpi);
                }
                self.regs.bgpd[(self.regs.bgpi & 0x3f) as usize]
            },
            0xff6a => self.regs.obpi,
            _ => {
                proof {
                    bytes::lemma_masks(self.regs.obpi);
                }
                self.regs.obpd[(self.regs.obpi & 0x3f) as usize]
            },
        }
    }
}


impl LCD {
    /// A write into OAM, when the controller lets the CPU at it.
    fn write_oam(&mut self, offset: usize, value: u8)
        requires
            offset < 0xa0,
        ensures
            old(self).oam_access ==> final(self).oam@ == old(self).oam@.update(offset as int, value)
                && *final(self) == (LCD { oam: final(self).oam, ..*old(self) }),
            !old(self).oam_access ==> *final(self) == *old(self),
    {
        if self.oam_access {
            self.oam[offset] = value
        }
    }

    /// A write into video RAM, when the controller lets the CPU at it.
    fn write_vram(&mut self, address: u16, value: u8)
        requires
            old(self).wf(),
            0x8000 <= address <= 0x9fff,
        ensures
            final(self).wf(),
            old(self).vram_access ==> final(self).video@ == old(self).video@.update(
                vram_index(old(self).video_bank, address),
                value,
            ) && *final(self) == (LCD { video: final(self).video, ..*old(self) }),
            !old(self).vram_access ==> *final(self) == *old(self),
    {
        if self.vram_access {
            let address = (0x2000 * self.video_bank as u16) + (address - 0x8000);
            self.video.set(address as usize, value);
        }
    }

    pub fn handle_write(&mut self, mem: &Memory, address: u16, value: u8)
        requires
            old(self).wf(),
            mem.wf(),
            lcd_address(address),
        ensures
            final(self).wf(),
            old(self).write_post(*final(self), *mem, address, value),
    {
        match address {
            0x8000..=0x9fff => self.write_vram(address, value),
            0xfe00..=0xfe9f => self.write_oam(address as usize - 0xfe00, value),
            0xff44 => {},
            0xff46 => self.dma(mem, value),
            0xff4f => {
                proof {
                    bytes::lemma_masks(value);
                }
                self.video_bank = value & 0x01
            },
            _ => self.write_register(mem, address, value),
        }
    }

    /// A write to one of the registers kept in `regs`.
    #[verifier::rlimit(40)]
    fn write_register(&mut self, mem: &Memory, address: u16, value: u8)
        requires
            old(self).wf(),
            lcd_address(address),
            !(0x8000 <= address <= 0x9fff),
            !(0xfe00 <= address <= 0xfe9f),
            address != 0xff44 && address != 0xff46 && address != 0xff4f,
        ensures
            final(self).wf(),
            old(self).regs_written(final(self).regs, *mem, address, value),
            *final(self) == (LCD { regs: final(self).regs, ..*old(self) }),
    {
        proof {
            bytes::lemma_masks(self.regs.bgpi);
            bytes::lemma_masks(self.regs.obpi);
        }
        match address {
            0xff40 => self.regs.lcdc = LCDC::from(value),
            0xff41 => self.regs.stat.update(value),
            0xff42 => self.regs.scy = value,
            0xff43 => self.regs.scx = value,
            0xff45 => self.regs.lyc = value,
            0xff47 => self.regs.bgp = mono_palette(value),
            0xff48 => self.regs.obp0 = mono_palette(value),
            0xff49 => self.regs.obp1 = mono_palette(value),
            0xff4a => self.regs.wy = value,
            0xff4b => self.regs.wx = value,
            0xff51 => self.regs.dma_source = ((value as u16) << 8u16) | (self.regs.dma_source & 0x0f),
            0xff52 => self.regs.dma_source = (value as u16) | (self.regs.dma_source & 0xf0),
            0xff53 => self.regs.dma_dest = ((value as u16) << 8u16) | (self.regs.dma_dest & 0x0f),
            0xff54 => self.regs.dma_dest = (value as u16) | (self.regs.dma_dest & 0xf0),
            0xff55 => self.start_hdma_transfer(value),
            0xff68 => self.regs.bgpi = value & 0xbf,
            0xff69 => {
                self.regs.bgpd.set((self.regs.bgpi & 0x3f) as usize, value);
                if self.regs.bgpi & 0x80 != 0 {
                    self.regs.bgpi = (self.regs.bgpi & 0x3f).wrapping_add(1) | 0x80;
                }
            },
            0xff6a => self.regs.obpi = value & 0xbf,
            _ => {
                self.regs.obpd.set((self.regs.obpi & 0x3f) as usize, value);
                if self.regs.obpi & 0x80 != 0 {
                    self.regs.obpi = (self.regs.obpi & 0x3f).wrapping_add(1) | 0x80;
                }
            },
        }
    }

    /// The OAM transfer: copies the 160 bytes at `value * 0x100` into OAM.
    fn dma(&mut self, mem: &Memory, value: u8)
        requires
            old(self).wf(),
            mem.wf(),
        ensures
            final(self).wf(),
            old(self).oam_access ==> final(self).oam@ == Seq::new(
                0xa0,
                |k: int| mem.load_spec((value * 256 + k) as u16),
            ) && *final(self) == (LCD { oam: final(self).oam, ..*old(self) }),
            !old(self).oam_access ==> *final(self) == *old(self),
    {
        let start = (value as u16) << 8u16;
        let end = ((value as u16) << 8u16) | 0x009f;
        assert(start == value * 256 && end == value * 256 + 0x9f) by (bit_vector)
            requires
                start == (value as u16) << 8u16,
                end == ((value as u16) << 8u16) | 0x009f,
        ;
        let mut dest = start;
        while dest <= end
            invariant
                start == value * 256,
                end == value * 256 + 0x9f,
                start <= dest <= end + 1,
                mem.wf(),
                old(self).wf(),
                self.wf(),
                !old(self).oam_access ==> *self == *old(self),
                old(self).oam_access ==> *self == (LCD { oam: self.oam, ..*old(self) }),
                old(self).oam_access ==> forall|k: int|
                    0 <= k < 0xa0 ==> #[trigger] self.oam@[k] == if k < dest - start {
                        mem.load_spec((value * 256 + k) as u16)
                    } else {
                        old(self).oam@[k]
                    },
            decreases end + 1 - dest,
        {
            let v = mem.load(dest);
            assert(dest & 0x00ff == dest - start) by (bit_vector)
                requires
                    start == value * 256,
                    start <= dest <= start + 0x9f,
            ;
            self.write_oam((dest & 0x00ff) as usize, v);
            dest = dest + 1;
        }
        proof {
            if old(self).oam_access {
                assert(self.oam@ =~= Seq::new(0xa0, |k: int| mem.load_spec((value * 256 + k) as u16)));
            }
        }
    }

    fn start_hdma_transfer(&mut self, value: u8)
        requires
            old(self).wf(),
        ensures
            final(self).wf(),
            *final(self) == (LCD { regs: final(self).regs, ..*old(self) }),
            final(self).regs == hdma_start(old(self).regs, value),
    {
        proof {
            bytes::lemma_masks(value);
        }
        if let HDMA::HDMA = self.regs.hdma_type {
            if value & 0x80 == 0 {
                self.regs.hdma_transfer |= 0x80;
                self.regs.hdma_type = HDMA::Idle;
            }
            return ;
        }
        self.regs.dma_source &= 0xfff0;
        self.regs.dma_dest &= 0x1ff0;
        self.regs.hdma_type = if value & 0x80 != 0 {
            HDMA::HDMA
        } else {
            HDMA::GDMA
        };
        self.regs.hdma_transfer = value & 0x7f;
    }
}

impl LCD {
    /// Copies one 16-byte block from the transfer source into video RAM.
    fn hdma_transfer_block(&mut self, mem: &Memory)
        requires
            old(self).wf(),
            mem.wf(),
            old(self).regs.hdma_type != HDMA::Idle,
        ensures
            final(self).wf(),
            final(self).video@ == (if old(self).vram_access {
                block_video(
                    old(self).video@,
                    block_base(old(self).video_bank, old(self).regs.dma_dest),
                    old(self).regs.dma_source,
                    *mem,
                )
            } else {
                old(self).video@
            }),
            final(self).regs == block_regs(old(self).regs),
            *final(self) == (LCD { video: final(self).video, regs: final(self).regs, ..*old(self) }),
    {
        let src = self.regs.dma_source;
        let d = self.regs.dma_dest;
        let start = src & 0xfff0;
        let end = (d & 0x1ff0) | 0x8000;
        assert(0x8000 <= end <= 0x9ff0 && end == 0x8000 + (d & 0x1ff0) && start <= 0xfff0) by (bit_vector)
            requires
                end == (d & 0x1ff0) | 0x8000,
                start == src & 0xfff0,
        ;
        let ghost base = block_base(self.video_bank, d);
        let ghost before = self.video@;
        let mut i: u16 = 0;
        while i < 0x10
            invariant
                0 <= i <= 0x10,
                old(self).wf(),
                mem.wf(),
                self.wf(),
                start <= 0xfff0,
                start == old(self).regs.dma_source & 0xfff0,
                0x8000 <= end <= 0x9ff0,
                base == vram_index(old(self).video_bank, end),
                before == old(self).video@,
                *self == (LCD { video: self.video, ..*old(self) }),
                old(self).vram_access ==> self.video@ == Seq::new(
                    before.len(),
                    |j: int|
                        if base <= j < base + i {
                            mem.load_spec(((old(self).regs.dma_source & 0xfff0) + (j - base)) as u16)
                        } else {
                            before[j]
                        },
                ),
                !old(self).vram_access ==> self.video@ == before,
            decreases 0x10 - i,
        {
            let v = mem.load(start + i);
            self.write_vram(end + i, v);
            proof {
                if old(self).vram_access {
                    assert(self.video@ =~= Seq::new(
                        before.len(),
                        |j: int|
                            if base <= j < base + i + 1 {
                                mem.load_spec(((old(self).regs.dma_source & 0xfff0) + (j - base)) as u16)
                            } else {
                                before[j]
                            },
                    ));
                }
            }
            i = i + 1;
        }
        proof {
            reveal(block_video);
            if old(self).vram_access {
                assert(self.video@ =~= block_video(before, base, old(self).regs.dma_source, *mem));
            }
        }
        self.regs.dma_source = self.regs.dma_source.wrapping_add(0x10);
        self.regs.dma_dest = self.regs.dma_dest.wrapping_add(0x10);
        self.regs.hdma_transfer = self.regs.hdma_transfer.wrapping_sub(1);
        if self.regs.hdma_transfer == 0xff {
            self.regs.hdma_type = HDMA::Idle;
        }
    }

    /// Runs the video RAM transfer under way: all of a general transfer, or
    /// one block of an HBlank transfer.
    #[verifier::rlimit(40)]
    fn hdma_transfer(&mut self, mem: &Memory)
        requires
            old(self).wf(),
            mem.wf(),
        ensures
            final(self).wf(),
            final(self).video@ == hdma_video(
                old(self).video@,
                old(self).video_bank,
                transfer_of(old(self).regs),
                *mem,
                old(self).vram_access,
            ),
            final(self).regs == hdma_regs(old(self).regs),
            *final(self) == (LCD { video: final(self).video, regs: final(self).regs, ..*old(self) }),
    {
        reveal(hdma_video);
        match self.regs.hdma_type {
            HDMA::GDMA => {
                let ghost total: nat = (old(self).regs.hdma_transfer + 1) as nat;
                let ghost target = blocks_video(
                    old(self).video@,
                    old(self).video_bank,
                    old(self).regs.dma_source,
                    old(self).regs.dma_dest,
                    total,
                    *mem,
                );
                while self.regs.hdma_transfer != 0xff
                    invariant
                        old(self).wf(),
                        old(self).regs.hdma_type == HDMA::GDMA,
                        mem.wf(),
                        self.wf(),
                        self.regs.hdma_transfer == 0xff || self.regs.hdma_type == HDMA::GDMA,
                        *self == (LCD { video: self.video, regs: self.regs, ..*old(self) }),
                        self.regs == (Registers {
                            dma_source: self.regs.dma_source,
                            dma_dest: self.regs.dma_dest,
                            hdma_transfer: self.regs.hdma_transfer,
                            hdma_type: self.regs.hdma_type,
                            ..old(self).regs
                        }),
                        ({
                            let rem: int = if self.regs.hdma_transfer == 0xff {
                                0
                            } else {
                                self.regs.hdma_transfer + 1
                            };
                            let k = total - rem;
                            &&& 0 <= rem <= total
                            &&& self.regs.dma_source == (old(self).regs.dma_source + 0x10 * k) % 0x10000
                            &&& self.regs.dma_dest == (old(self).regs.dma_dest + 0x10 * k) % 0x10000
                            &&& old(self).vram_access ==> blocks_video(
                                self.video@,
                                old(self).video_bank,
                                self.regs.dma_source,
                                self.regs.dma_dest,
                                rem as nat,
                                *mem,
                            ) == target
                            &&& !old(self).vram_access ==> self.video@ == old(self).video@
                        }),
                    decreases
                        if self.regs.hdma_transfer == 0xff {
                            0
                        } else {
                            self.regs.hdma_transfer + 1
                        },
                {
                    self.hdma_transfer_block(mem);
                    proof {
                        reveal_with_fuel(blocks_video, 1);
                    }
                }
                proof {
                    reveal_with_fuel(blocks_video, 1);
                    if old(self).vram_access {
                        assert(self.video@ == target);
                    }
                }
            },
            HDMA::HDMA => {
                self.hdma_transfer_block(mem);
            },
            HDMA::Idle => {},
        }
    }

    fn set_mode(&mut self, interrupts: &mut Interrupts, mode: Mode)
        ensures
            *final(self) == (LCD {
                regs: Registers { stat: STAT { mode, ..old(self).regs.stat }, ..old(self).regs },
                ..*old(self)
            }),
            *final(interrupts) == (Interrupts {
                flag: raise_mode_irq(old(interrupts).flag, old(self).regs.stat, mode),
                ..*old(interrupts)
            }),
            raised_only(old(interrupts).flag, final(interrupts).flag),
    {
        proof {
            lemma_raise_mode_irq(interrupts.flag, self.regs.stat, mode);
        }
        if self.regs.stat.mode == mode {
            return ;
        }
        self.regs.stat.mode = mode;
        if (mode == Mode::HBlank && self.regs.stat.mode_0_hblank) || (mode == Mode::VBlank
            && self.regs.stat.mode_1_vblank) || (mode == Mode::OAM && self.regs.stat.mode_2_oam) {
            interrupts.flag |= 0x02;
        }
        if mode == Mode::VBlank {
            interrupts.flag |= 0x01;
        }
    }

    /// Runs the display controller for `timing` ticks: the scan-line state
    /// machine, its interrupts, the line drawn on entering HBlank, and the
    /// video RAM transfers.
    #[verifier::rlimit(60)]
    pub fn advance(&mut self, interrupts: &mut Interrupts, mem: &Memory, timing: Timing)
        requires
            old(self).wf(),
            mem.wf(),
            old(self).mode_timing + timing <= u16::MAX,
        ensures
            final(self).wf(),
            old(self).advanced(*final(self), old(interrupts).flag, final(interrupts).flag, *mem, timing),
            final(interrupts).enabled == old(interrupts).enabled,
            final(interrupts).enable == old(interrupts).enable,
            raised_only(old(interrupts).flag, final(interrupts).flag),
            old(self).mode_timing <= 4583 && timing <= 80 ==> final(self).mode_timing <= 4583,
    {
        self.done_frame = false;

        self.oam_access = true;
        self.vram_access = true;

        if let HDMA::GDMA = self.regs.hdma_type {
            self.hdma_transfer(mem);
        }
        let ghost pre = *self;
        proof {
            let gdma = old(self).regs.hdma_type == HDMA::GDMA;
            assert(pre.regs == (if gdma { hdma_regs(old(self).regs) } else { old(self).regs }));
            assert(pre.video@ == (if gdma {
                hdma_video(old(self).video@, old(self).video_bank, transfer_of(old(self).regs), *mem, true)
            } else {
                old(self).video@
            }));
            assert(pre == (LCD {
                regs: pre.regs,
                video: pre.video,
                done_frame: false,
                oam_access: true,
                vram_access: true,
                ..*old(self)
            }));
        }
        if !self.regs.lcdc.display_enable {
            self.switch_off(interrupts);
            return ;
        }
        self.run_on(interrupts, mem, timing);
        proof {
            let gdma = old(self).regs.hdma_type == HDMA::GDMA;
            let r0 = if gdma {
                hdma_regs(old(self).regs)
            } else {
                old(self).regs
            };
            let v0 = if gdma {
                hdma_video(old(self).video@, old(self).video_bank, transfer_of(old(self).regs), *mem, true)
            } else {
                old(self).video@
            };
            assert(pre.regs == r0 && pre.video@ == v0);
            assert(pre.ran_on(r0, v0, *self, old(interrupts).flag, interrupts.flag, *mem, timing));
            assert(pre == LCD {
                regs: r0,
                video: pre.video,
                done_frame: false,
                oam_access: true,
                vram_access: true,
                ..*old(self)
            });
            assert(old(self).regs.lcdc.display_enable);
        }
    }

    /// The display has been switched off: back to line 0 in HBlank.
    fn switch_off(&mut self, interrupts: &mut Interrupts)
        requires
            old(self).wf(),
        ensures
            final(self).wf(),
            final(interrupts).flag == (if old(self).enabled {
                raise_mode_irq(old(interrupts).flag, old(self).regs.stat, Mode::HBlank)
            } else {
                old(interrupts).flag
            }),
            *final(self) == (if old(self).enabled {
                LCD {
                    regs: Registers {
                        ly: 0,
                        stat: STAT { mode: Mode::HBlank, ..old(self).regs.stat },
                        ..old(self).regs
                    },
                    mode_timing: 0,
                    enabled: false,
                    ..*old(self)
                }
            } else {
                *old(self)
            }),
            final(interrupts).enabled == old(interrupts).enabled,
            final(interrupts).enable == old(interrupts).enable,
            raised_only(old(interrupts).flag, final(interrupts).flag),
    {
        proof {
            lemma_raised_only(interrupts.flag, 0, 0);
        }
        if self.enabled {
            self.regs.ly = 0;
            self.set_mode(interrupts, Mode::HBlank);
            self.mode_timing = 0;
            self.enabled = false;
        }
    }

    /// The part of `advance` for a display that is on.
    fn run_on(&mut self, interrupts: &mut Interrupts, mem: &Memory, timing: Timing)
        requires
            old(self).wf(),
            mem.wf(),
            old(self).regs.lcdc.display_enable,
            old(self).mode_timing + timing <= u16::MAX,
            !old(self).done_frame,
            old(self).vram_access,
            old(self).oam_access,
        ensures
            final(self).wf(),
            old(self).ran_on(
                old(self).regs,
                old(self).video@,
                *final(self),
                old(interrupts).flag,
                final(interrupts).flag,
                *mem,
                timing,
            ),
            final(interrupts).enabled == old(interrupts).enabled,
            final(interrupts).enable == old(interrupts).enable,
            raised_only(old(interrupts).flag, final(interrupts).flag),
            old(self).mode_timing <= 4583 && timing <= 80 ==> final(self).mode_timing <= 4583,
    {
        reveal(LCD::ran_on);
        proof {
            lemma_raised_only(interrupts.flag, 0, 0);
        }
        if !self.enabled {
            self.set_mode(interrupts, Mode::OAM);
            self.mode_timing = 0;
            self.enabled = true;
        }
        self.mode_timing += timing as u16;
        let ghost mid = *self;
        let ghost mid_flag = interrupts.flag;
        self.tick_on(interrupts, mem);
        proof {
            lemma_raised_only(old(interrupts).flag, mid_flag, interrupts.flag);
            let stat = old(self).regs.stat;
            let m0 = if old(self).enabled { stat.mode } else { Mode::OAM };
            let mt0 = (if old(self).enabled { old(self).mode_timing as int } else { 0 }) + timing;
            assert(mid == (LCD {
                regs: Registers { stat: STAT { mode: m0, ..stat }, ..old(self).regs },
                mode_timing: mt0 as u16,
                enabled: true,
                ..*old(self)
            }));
        }
    }

    /// A step of an enabled display whose tick count is up to date.
    #[verifier::rlimit(80)]
    #[verifier::spinoff_prover]
    fn tick_on(&mut self, interrupts: &mut Interrupts, mem: &Memory)
        requires
            old(self).wf(),
            mem.wf(),
            old(self).enabled,
            !old(self).done_frame,
            old(self).vram_access,
        ensures
            final(self).wf(),
            old(self).ticked(old(self).video@, *final(self), old(interrupts).flag, final(interrupts).flag, *mem),
            final(interrupts).enabled == old(interrupts).enabled,
            final(interrupts).enable == old(interrupts).enable,
            raised_only(old(interrupts).flag, final(interrupts).flag),
            old(self).mode_timing <= 4663 ==> final(self).mode_timing <= 4583,
    {
        let ghost p = *self;
        self.step_mode(interrupts, mem);
        let ghost q = *self;
        let ghost mid_flag = interrupts.flag;
        self.finish_step(interrupts);
        proof {
            lemma_raised_only(old(interrupts).flag, mid_flag, interrupts.flag);
            let stat = p.regs.stat;
            let (m1, mt1, ly1, done) = scan(stat.mode, p.mode_timing as int, p.regs.ly);
            let coincidence = ly1 == p.regs.lyc;
            let r1a = Registers { ly: ly1, stat: STAT { mode: m1, ..stat }, ..p.regs };
            let r1 = Registers { ly: ly1, stat: STAT { mode: m1, coincidence, ..stat }, ..p.regs };
            lemma_hdma_regs_frame(r1a, STAT { mode: m1, coincidence, ..stat }, ly1);
            assert(r1 == Registers { ly: ly1, stat: STAT { mode: m1, coincidence, ..stat }, ..r1a });
            assert(transfer_of(r1) == transfer_of(r1a));
        }
    }

    /// The mode transition that the ticks so far call for, if any.
    fn step_mode(&mut self, interrupts: &mut Interrupts, mem: &Memory)
        requires
            old(self).wf(),
            mem.wf(),
            old(self).vram_access,
            old(self).enabled,
            !old(self).done_frame,
        ensures
            final(self).wf(),
            ({
                let p = *old(self);
                let (m1, mt1, ly1, done) = scan(p.regs.stat.mode, p.mode_timing as int, p.regs.ly);
                let drew = p.regs.stat.mode == Mode::VRAM && m1 == Mode::HBlank;
                let r1 = Registers { ly: ly1, stat: STAT { mode: m1, ..p.regs.stat }, ..p.regs };
                &&& final(interrupts).flag == raise_mode_irq(old(interrupts).flag, p.regs.stat, m1)
                &&& final(self).regs == (if drew {
                    hdma_regs(r1)
                } else {
                    r1
                })
                &&& final(self).video@ == (if drew {
                    hdma_video(p.video@, p.video_bank, transfer_of(r1), *mem, true)
                } else {
                    p.video@
                })
                &&& if drew {
                    line_drawn(
                        LCD {
                            regs: Registers { stat: STAT { mode: Mode::HBlank, ..p.regs.stat }, ..p.regs },
                            mode_timing: mt1 as u16,
                            ..p
                        },
                        p.regs.ly,
                        final(self).screen@,
                    )
                } else {
                    final(self).screen == p.screen
                }
                &&& *final(self) == (LCD {
                    regs: final(self).regs,
                    video: final(self).video,
                    screen: final(self).screen,
                    done_frame: done,
                    mode_timing: mt1 as u16,
                    ..p
                })
            }),
            final(interrupts).enabled == old(interrupts).enabled,
            final(interrupts).enable == old(interrupts).enable,
            raised_only(old(interrupts).flag, final(interrupts).flag),
    {
        proof {
            lemma_raised_only(interrupts.flag, 0, 0);
        }
        match self.regs.stat.mode {
            Mode::OAM => {
                if self.mode_timing >= 80 {
                    self.mode_timing -= 80;
                    self.set_mode(interrupts, Mode::VRAM);
                }
            },
            Mode::VRAM => {
                if self.mode_timing >= 172 {
                    self.mode_timing -= 172;
                    self.enter_hblank(interrupts, mem);
                }
            },
            Mode::HBlank => self.step_hblank(interrupts),
            Mode::VBlank => self.step_vblank(interrupts),
        }
    }

    /// In HBlank: the next line starts once its ticks are done.
    fn step_hblank(&mut self, interrupts: &mut Interrupts)
        requires
            old(self).wf(),
            old(self).regs.stat.mode == Mode::HBlank,
            old(self).enabled,
        ensures
            final(self).wf(),
            ({
                let p = *old(self);
                let (m1, mt1, ly1, done) = scan(Mode::HBlank, p.mode_timing as int, p.regs.ly);
                &&& final(interrupts).flag == raise_mode_irq(old(interrupts).flag, p.regs.stat, m1)
                &&& *final(self) == (LCD {
                    regs: Registers { ly: ly1, stat: STAT { mode: m1, ..p.regs.stat }, ..p.regs },
                    mode_timing: mt1 as u16,
                    ..p
                })
            }),
            final(interrupts).enabled == old(interrupts).enabled,
            final(interrupts).enable == old(interrupts).enable,
            raised_only(old(interrupts).flag, final(interrupts).flag),
    {
        proof {
            lemma_raised_only(interrupts.flag, 0, 0);
        }
        if self.mode_timing >= 204 {
            self.mode_timing -= 204;
            self.regs.ly += 1;
            let next = if self.regs.ly >= SCREEN_HEIGHT {
                Mode::VBlank
            } else {
                Mode::OAM
            };
            self.set_mode(interrupts, next)
        }
    }

    /// In VBlank: the line counter follows the ticks, and the frame ends.
    fn step_vblank(&mut self, interrupts: &mut Interrupts)
        requires
            old(self).wf(),
            old(self).regs.stat.mode == Mode::VBlank,
            !old(self).done_frame,
            old(self).enabled,
        ensures
            final(self).wf(),
            ({
                let p = *old(self);
                let (m1, mt1, ly1, done) = scan(Mode::VBlank, p.mode_timing as int, p.regs.ly);
                &&& final(interrupts).flag == raise_mode_irq(old(interrupts).flag, p.regs.stat, m1)
                &&& *final(self) == (LCD {
                    regs: Registers { ly: ly1, stat: STAT { mode: m1, ..p.regs.stat }, ..p.regs },
                    mode_timing: mt1 as u16,
                    done_frame: done,
                    ..p
                })
            }),
            final(interrupts).enabled == old(interrupts).enabled,
            final(interrupts).enable == old(interrupts).enable,
            raised_only(old(interrupts).flag, final(interrupts).flag),
    {
        proof {
            lemma_raised_only(interrupts.flag, 0, 0);
        }
        if self.mode_timing >= 4560 {
            self.set_mode(interrupts, Mode::OAM);
            self.mode_timing -= 4560;
            self.regs.ly = 0;
            self.done_frame = true;
        } else {
            let ly = (self.mode_timing / 456) + SCREEN_HEIGHT as u16;
            self.regs.ly = ly as u8;
        }
    }

    /// The end of the pixel transfer: HBlank starts, the line is drawn and an
    /// HBlank transfer copies its block.
    fn enter_hblank(&mut self, interrupts: &mut Interrupts, mem: &Memory)
        requires
            old(self).wf(),
            mem.wf(),
            old(self).vram_access,
            old(self).regs.stat.mode == Mode::VRAM,
        ensures
            final(self).wf(),
            ({
                let p = *old(self);
                let r1 = Registers { stat: STAT { mode: Mode::HBlank, ..p.regs.stat }, ..p.regs };
                &&& final(interrupts).flag == raise_mode_irq(
                    old(interrupts).flag,
                    p.regs.stat,
                    Mode::HBlank,
                )
                &&& final(self).regs == hdma_regs(r1)
                &&& final(self).video@ == hdma_video(p.video@, p.video_bank, transfer_of(r1), *mem, true)
                &&& line_drawn(LCD { regs: r1, ..p }, p.regs.ly, final(self).screen@)
                &&& *final(self) == (LCD {
                    regs: final(self).regs,
                    video: final(self).video,
                    screen: final(self).screen,
                    ..p
                })
            }),
            final(interrupts).enabled == old(interrupts).enabled,
            final(interrupts).enable == old(interrupts).enable,
            raised_only(old(interrupts).flag, final(interrupts).flag),
    {
        self.set_mode(interrupts, Mode::HBlank);
        let ly = self.regs.ly;
        self.draw_line(ly);
        self.hdma_transfer(mem);
    }

    /// The coincidence check and the CPU access that the new mode allows.
    fn finish_step(&mut self, interrupts: &mut Interrupts)
        requires
            old(self).wf(),
        ensures
            final(self).wf(),
            ({
                let p = *old(self);
                let coincidence = p.regs.ly == p.regs.lyc;
                &&& final(interrupts).flag == (if coincidence && p.regs.stat.lyc_equals_lc {
                    old(interrupts).flag | 0x02
                } else {
                    old(interrupts).flag
                })
                &&& *final(self) == (LCD {
                    regs: Registers { stat: STAT { coincidence, ..p.regs.stat }, ..p.regs },
                    oam_access: access_in(p.regs.stat.mode).0,
                    vram_access: access_in(p.regs.stat.mode).1,
                    ..p
                })
            }),
            final(interrupts).enabled == old(interrupts).enabled,
            final(interrupts).enable == old(interrupts).enable,
            raised_only(old(interrupts).flag, final(interrupts).flag),
    {
        proof {
            lemma_raised_only(interrupts.flag, 0, 0);
        }
        self.regs.stat.coincidence = self.regs.ly == self.regs.lyc;
        if self.regs.stat.coincidence && self.regs.stat.lyc_equals_lc {
            interrupts.flag |= 0x02;
        }
        match self.regs.stat.mode {
            Mode::OAM => {
                self.oam_access = false;
                self.vram_access = true;
            },
            Mode::VRAM => {
                self.oam_access = false;
                self.vram_access = false;
            },
            _ => {
                self.oam_access = true;
                self.vram_access = true;
            },
        }
    }

}

impl SpriteInfo {
    /// Sprite `id` as OAM describes it; in the tall sprite mode the tile
    /// number's low bit is ignored.
    pub fn from_memory(lcd: &LCD, id: u8, size: SpriteSize) -> (r: Self)
        requires
            lcd.wf(),
            id < 40,
        ensures
            r.id == id,
            r.y == lcd.read_spec((0xfe00 + id * 4) as u16),
            r.x == lcd.read_spec((0xfe00 + id * 4 + 1) as u16),
            r.tile == lcd.read_spec((0xfe00 + id * 4 + 2) as u16) & (if size == SpriteSize::Large {
                0xfeu8
            } else {
                0xffu8
            }),
            r.flags == sprite_attributes_of(lcd.read_spec((0xfe00 + id * 4 + 3) as u16)),
            r.flags.color_palette <= 7,
            r.flags.bank <= 1,
    {
        let id16 = id as u16;
        let f = lcd.handle_read(0xfe00 + id16 * 4 + 3);
        proof {
            bytes::lemma_masks(f);
            bytes::lemma_byte_arith(f);
        }
        Self {
            id,
            y: lcd.handle_read(0xfe00 + id16 * 4),
            x: lcd.handle_read(0xfe00 + id16 * 4 + 1),
            tile: lcd.handle_read(0xfe00 + id16 * 4 + 2) & match size {
                SpriteSize::Large => 0xfe,
                SpriteSize::Small => 0xff,
            },
            flags: SpriteAttributes::from(f),
        }
    }
}

/// A byte written to video RAM or OAM while the CPU may reach it is what
/// a read of the same address then gives.
pub proof fn lemma_video_write_read(l: LCD, post: LCD, mem: Memory, address: u16, value: u8)
    requires
        l.wf(),
        (0x8000 <= address <= 0x9fff && l.vram_access) || (0xfe00 <= address <= 0xfe9f
            && l.oam_access),
        l.write_post(post, mem, address, value),
    ensures
        post.read_spec(address) == value,
{
}

} // verus!
