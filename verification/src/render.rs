use vstd::prelude::*;
use crate::bytes::{self, word};
use crate::lcd::{
    BGMapAttributes, Color, ColorPalette, LCD, Palette, Registers, SCREEN_HEIGHT, SCREEN_WIDTH,
    SpriteInfo, SpriteSize, VIDEO_BYTES, bg_attributes_of, color_of, lemma_bg_attributes_bounds,
    SCREEN_BYTES, SpriteAttributes, sprite_attributes_of,
};

verus! {

/// A byte computed with wrapping arithmetic.
pub open spec fn wrap8(v: int) -> u8 {
    (v % 256) as u8
}

/// Whether pixel `i` of line `ly` shows the window rather than the background.
pub open spec fn shows_window(regs: Registers, i: u8, ly: u8) -> bool {
    regs.lcdc.window_display_enable && wrap8(regs.wx - 7) <= i && regs.wy <= ly
}

/// The column, in the window or the background map, of pixel `i` of line `ly`.
pub open spec fn map_x(regs: Registers, i: u8, ly: u8) -> u8 {
    if shows_window(regs, i, ly) {
        wrap8(i - regs.wx + 7)
    } else {
        wrap8(i + regs.scx)
    }
}

/// The row, in the window or the background map, of pixel `i` of line `ly`.
pub open spec fn map_y(regs: Registers, i: u8, ly: u8) -> u8 {
    if shows_window(regs, i, ly) {
        wrap8(ly - regs.wy)
    } else {
        wrap8(ly + regs.scy)
    }
}

/// The index into video RAM of the map entry for the tile under pixel `i`
/// of line `ly`.
pub open spec fn map_entry(regs: Registers, i: u8, ly: u8) -> int {
    let select = if shows_window(regs, i, ly) {
        regs.lcdc.window_tile_map_display_select
    } else {
        regs.lcdc.bg_tile_map_display_select
    };
    (if select {
        0x1c00int
    } else {
        0x1800
    }) + (map_y(regs, i, ly) / 8) * 32 + map_x(regs, i, ly) / 8
}

/// The attributes of a map entry: from the second video bank on the colour
/// console, none on the monochrome one.
pub open spec fn entry_attributes(lcd: LCD, entry: int) -> BGMapAttributes {
    if lcd.cgb {
        bg_attributes_of(lcd.video@[entry + 0x2000])
    } else {
        bg_attributes_of(0)
    }
}

/// A tile number as the signed addressing mode reads it.
pub open spec fn signed_tile(tile: u8) -> int {
    if tile >= 128 {
        tile - 256
    } else {
        tile as int
    }
}

/// The index into video RAM of the two bytes of tile data that pixel `i` of
/// line `ly` of the background or window takes its colour from.
pub open spec fn bg_row(lcd: LCD, i: u8, ly: u8) -> int {
    let regs = lcd.regs;
    let entry = map_entry(regs, i, ly);
    let attr = entry_attributes(lcd, entry);
    let y = map_y(regs, i, ly);
    let py: int = if !attr.reverse_y {
        (y % 8) as int
    } else {
        7 - y % 8
    };
    let tile = lcd.video@[entry];
    let base = if regs.lcdc.bg_window_tile_data_select {
        tile * 16
    } else {
        0x1000 + signed_tile(tile) * 16
    };
    base + py * 2 + 0x2000 * attr.bank
}

/// The colour number of a pixel of a tile row: bit `bit` of the second
/// byte is its high bit, of the first its low bit.
pub open spec fn pixel_color(bit: u8, top: u8, bottom: u8) -> u8 {
    (((top >> bit) & 1) * 2 + ((bottom >> bit) & 1)) as u8
}

/// The colour number of pixel `i` of line `ly` of the background or window.
pub open spec fn bg_color(lcd: LCD, i: u8, ly: u8) -> u8 {
    let attr = entry_attributes(lcd, map_entry(lcd.regs, i, ly));
    let x = map_x(lcd.regs, i, ly);
    let px: int = if !attr.reverse_x {
        7 - x % 8
    } else {
        (x % 8) as int
    };
    let row = bg_row(lcd, i, ly);
    pixel_color(px as u8, lcd.video@[row + 1], lcd.video@[row])
}

/// The colour that colour number `color` of colour palette `index` of the
/// palette data `pd` stands for.
pub open spec fn palette_rgb(pd: Seq<u8>, index: u8, color: u8) -> Seq<u8> {
    let at = (index & 0x3f) * 8 + (color & 0x03) * 2;
    color_of(word(pd[at + 1], pd[at]))
}

/// The colour of pixel `i` of line `ly` of the background or window.
pub open spec fn bg_rgb(lcd: LCD, i: u8, ly: u8) -> Seq<u8> {
    let c = bg_color(lcd, i, ly);
    if lcd.cgb {
        palette_rgb(lcd.regs.bgpd@, entry_attributes(lcd, map_entry(lcd.regs, i, ly)).palette, c)
    } else {
        lcd.regs.bgp.color_spec(c)
    }
}

/// Whether line `ly` shows the background or the window at all.
pub open spec fn bg_shown(regs: Registers, ly: u8) -> bool {
    regs.lcdc.bg_display || (regs.lcdc.window_display_enable && regs.wx <= 166 && regs.wy <= ly)
}

/// The screen with the first `n` pixels of line `ly` set to the colours
/// `rgb`; a channel whose byte would lie past the end of the line is left
/// as it was.
pub open spec fn paint(screen: Seq<u8>, ly: u8, n: int, rgb: spec_fn(int) -> Seq<u8>) -> Seq<u8> {
    Seq::new(
        screen.len(),
        |j: int|
            {
                let p = j - ly * 640;
                if 0 <= p < n * 4 && p % 4 < 3 && p / 4 + p % 4 < 160 {
                    rgb(p / 4)[p % 4]
                } else {
                    screen[j]
                }
            },
    )
}

/// The colours of line `ly` of the background and window: white where
/// neither is shown.
pub open spec fn bg_line(lcd: LCD, ly: u8) -> spec_fn(int) -> Seq<u8> {
    |i: int|
        if bg_shown(lcd.regs, ly) {
            bg_rgb(lcd, i as u8, ly)
        } else {
            seq![255u8, 255u8, 255u8]
        }
}

/// Sprite `id` as OAM describes it; in the tall sprite mode the tile
/// number's low bit is ignored.
pub open spec fn sprite_of(lcd: LCD, id: u8, size: SpriteSize) -> SpriteInfo {
    SpriteInfo {
        id,
        y: lcd.read_spec((0xfe00 + id * 4) as u16),
        x: lcd.read_spec((0xfe00 + id * 4 + 1) as u16),
        tile: lcd.read_spec((0xfe00 + id * 4 + 2) as u16) & (if size == SpriteSize::Large {
            0xfeu8
        } else {
            0xffu8
        }),
        flags: sprite_attributes_of(lcd.read_spec((0xfe00 + id * 4 + 3) as u16)),
    }
}

/// The height of the sprites, in lines.
pub open spec fn sprite_height(size: SpriteSize) -> int {
    if size == SpriteSize::Large {
        16
    } else {
        8
    }
}

/// Whether a sprite lies across line `ly` (and not wholly right of the screen).
pub open spec fn on_line(s: SpriteInfo, ly: u8, size: SpriteSize) -> bool {
    &&& s.x < 168
    &&& wrap8(s.y - 16) <= ly
    &&& ly < wrap8(wrap8(s.y - 16) + sprite_height(size))
}

/// Whether sprite `a` comes before sprite `b`: by x position, then by number.
pub open spec fn drawn_before(a: SpriteInfo, b: SpriteInfo) -> bool {
    a.x < b.x || (a.x == b.x && a.id < b.id)
}

/// Whether a sprite is one of the forty, as OAM describes it, and lies
/// across line `ly`.
pub open spec fn listed(lcd: LCD, ly: u8, size: SpriteSize, s: SpriteInfo) -> bool {
    &&& s.id < 40
    &&& s == sprite_of(lcd, s.id, size)
    &&& on_line(s, ly, size)
}

/// Whether `r` is the list of sprites drawn on line `ly`: those across the
/// line, in the order of `drawn_before`, the first ten of them.
pub open spec fn line_sprites(lcd: LCD, ly: u8, size: SpriteSize, r: Seq<SpriteInfo>) -> bool {
    &&& r.len() <= 10
    &&& forall|k: int| 0 <= k < r.len() ==> #[trigger] listed(lcd, ly, size, r[k])
    &&& forall|j: int, k: int| 0 <= j < k < r.len() ==> drawn_before(#[trigger] r[j], #[trigger] r[k])
    &&& forall|v: u8|
        v < 40 && on_line(#[trigger] sprite_of(lcd, v, size), ly, size) ==> (exists|k: int|
            0 <= k < r.len() && #[trigger] r[k].id == v) || (r.len() == 10 && drawn_before(
            r[9],
            sprite_of(lcd, v, size),
        ))
}

/// The screen with the pixels of line `ly` that `shown` picks set to the
/// colours `rgb`; a channel whose byte would lie past the end of the line is
/// left as it was.
pub open spec fn overlay(
    screen: Seq<u8>,
    ly: u8,
    shown: spec_fn(int) -> bool,
    rgb: spec_fn(int) -> Seq<u8>,
) -> Seq<u8> {
    Seq::new(
        screen.len(),
        |j: int|
            {
                let p = j - ly * 640;
                if 0 <= p < 640 && p % 4 < 3 && p / 4 + p % 4 < 160 && shown(p / 4) {
                    rgb(p / 4)[p % 4]
                } else {
                    screen[j]
                }
            },
    )
}

/// The index into video RAM of the row of tile data that a sprite shows on
/// line `ly`.
pub open spec fn sprite_row(lcd: LCD, s: SpriteInfo, ly: u8) -> int {
    let dy = ly - (s.y - 16);
    let ty = if s.flags.reverse_y {
        sprite_height(lcd.regs.lcdc.obj_size) - 1 - dy
    } else {
        dy
    };
    s.tile * 16 + ty * 2 + (if lcd.cgb {
        0x2000 * s.flags.bank
    } else {
        0
    })
}

/// The colour number that a sprite of line `ly` has at screen column `col`.
pub open spec fn sprite_color(lcd: LCD, s: SpriteInfo, ly: u8, col: int) -> u8 {
    let x = col - (s.x - 8);
    let px = if s.flags.reverse_x {
        x
    } else {
        7 - x
    };
    let row = sprite_row(lcd, s, ly);
    pixel_color(px as u8, lcd.video@[row + 1], lcd.video@[row])
}

/// The X-flip attribute mirrors a sprite: the pixel that the flipped
/// sprite shows `x` columns right of its left edge is the one that the
/// unflipped sprite shows `7 - x` columns right of it.  Unflipped, the left
/// edge shows bit 7 of the row's two bytes; flipped, it shows bit 0.
pub proof fn lemma_sprite_x_flip(lcd: LCD, s: SpriteInfo, ly: u8, x: int)
    requires
        0 <= x < 8,
        !s.flags.reverse_x,
    ensures
        ({
            let f = SpriteInfo { flags: SpriteAttributes { reverse_x: true, ..s.flags }, ..s };
            let left = s.x - 8;
            let row = sprite_row(lcd, s, ly);
            &&& sprite_color(lcd, f, ly, left + x) == sprite_color(lcd, s, ly, left + 7 - x)
            &&& sprite_color(lcd, s, ly, left) == pixel_color(7, lcd.video@[row + 1], lcd.video@[row])
            &&& sprite_color(lcd, f, ly, left) == pixel_color(0, lcd.video@[row + 1], lcd.video@[row])
        }),
{
}

/// Whether one of the first `n` pixels of a sprite of line `ly` shows at
/// screen column `col`: it is on the screen, its colour number is not 0,
/// and the background does not hide it.
pub open spec fn sprite_mask(
    lcd: LCD,
    s: SpriteInfo,
    ly: u8,
    bgcolors: Seq<u8>,
    priority: Seq<u8>,
    n: int,
) -> spec_fn(int) -> bool {
    |col: int|
        {
            let x = col - (s.x - 8);
            &&& 0 <= x < n
            &&& 0 <= col < 160
            &&& sprite_color(lcd, s, ly, col) != 0
            &&& !(s.flags.priority && (bgcolors[col] > 0 || priority[col] > 0)
                && !lcd.regs.lcdc.bg_display)
        }
}

/// The colours of a sprite of line `ly`, by screen column.
pub open spec fn sprite_colors(lcd: LCD, s: SpriteInfo, ly: u8) -> spec_fn(int) -> Seq<u8> {
    |col: int|
        {
            let c = sprite_color(lcd, s, ly, col);
            if lcd.cgb {
                palette_rgb(lcd.regs.obpd@, s.flags.color_palette, c)
            } else if s.flags.palette == 1 {
                lcd.regs.obp1.color_spec(c)
            } else {
                lcd.regs.obp0.color_spec(c)
            }
        }
}

/// The screen after the sprites `l[k..]` of line `ly` are drawn over it,
/// the last one first.
pub open spec fn sprites_drawn(
    lcd: LCD,
    screen: Seq<u8>,
    ly: u8,
    l: Seq<SpriteInfo>,
    k: int,
    bgcolors: Seq<u8>,
    priority: Seq<u8>,
) -> Seq<u8>
    decreases l.len() - k,
{
    if k < 0 || k >= l.len() {
        screen
    } else {
        overlay(
            sprites_drawn(lcd, screen, ly, l, k + 1, bgcolors, priority),
            ly,
            sprite_mask(lcd, l[k], ly, bgcolors, priority, 8),
            sprite_colors(lcd, l[k], ly),
        )
    }
}

/// Setting the next pixel that the mask picks extends the overlay.
proof fn lemma_overlay_step(
    screen0: Seq<u8>,
    before: Seq<u8>,
    after: Seq<u8>,
    ly: u8,
    x: u8,
    c: Seq<u8>,
    m0: spec_fn(int) -> bool,
    m1: spec_fn(int) -> bool,
    rgb: spec_fn(int) -> Seq<u8>,
)
    requires
        ly < SCREEN_HEIGHT,
        x < SCREEN_WIDTH,
        c == rgb(x as int),
        m1(x as int),
        !m0(x as int),
        forall|col: int| col != x ==> #[trigger] m1(col) == m0(col),
        screen0.len() == SCREEN_BYTES,
        before == overlay(screen0, ly, m0, rgb),
        after == Seq::new(
            before.len(),
            |j: int|
                if ly * 640 + x * 4 <= j < ly * 640 + x * 4 + 3 && x + (j - ly * 640 - x * 4) < 160 {
                    c[j - ly * 640 - x * 4]
                } else {
                    before[j]
                },
        ),
    ensures
        after == overlay(screen0, ly, m1, rgb),
{
    assert forall|j: int| 0 <= j < after.len() implies #[trigger] after[j] == overlay(
        screen0,
        ly,
        m1,
        rgb,
    )[j] by {
        let p = j - ly * 640;
        if x * 4 <= p < x * 4 + 3 {
            assert(p / 4 == x && p % 4 == p - x * 4);
        } else if 0 <= p < 640 {
            assert(p / 4 != x || p % 4 == 3);
        }
    }
    assert(after =~= overlay(screen0, ly, m1, rgb));
}

/// An overlay whose mask gains no pixel is the same overlay.
proof fn lemma_overlay_same(
    screen0: Seq<u8>,
    ly: u8,
    m0: spec_fn(int) -> bool,
    m1: spec_fn(int) -> bool,
    rgb: spec_fn(int) -> Seq<u8>,
)
    requires
        forall|col: int| 0 <= col < 160 ==> #[trigger] m1(col) == m0(col),
    ensures
        overlay(screen0, ly, m0, rgb) == overlay(screen0, ly, m1, rgb),
{
    assert(overlay(screen0, ly, m0, rgb) =~= overlay(screen0, ly, m1, rgb));
}

/// The colour numbers of the background pixels of line `ly` (0 where the
/// window or nothing shows).
pub open spec fn bg_colors_of(lcd: LCD, ly: u8) -> Seq<u8> {
    Seq::new(
        160,
        |i: int|
            if bg_shown(lcd.regs, ly) && !shows_window(lcd.regs, i as u8, ly) {
                bg_color(lcd, i as u8, ly)
            } else {
                0
            },
    )
}

/// The priority bits of the background pixels of line `ly` on the colour
/// console (0 elsewhere).
pub open spec fn bg_priority_of(lcd: LCD, ly: u8) -> Seq<u8> {
    Seq::new(
        160,
        |i: int|
            if bg_shown(lcd.regs, ly) && lcd.cgb && !shows_window(lcd.regs, i as u8, ly)
                && entry_attributes(lcd, map_entry(lcd.regs, i as u8, ly)).priority {
                1u8
            } else {
                0
            },
    )
}

/// Whether `post` is the screen after line `ly` is drawn from `lcd`: the
/// background and window, then the sprites of the line over them.  Lines
/// past the bottom of the screen draw nothing.
#[verifier::opaque]
pub open spec fn line_drawn(lcd: LCD, ly: u8, post: Seq<u8>) -> bool {
    if ly >= SCREEN_HEIGHT {
        post == lcd.screen@
    } else {
        exists|l: Seq<SpriteInfo>|
            {
                &&& line_sprites(lcd, ly, lcd.regs.lcdc.obj_size, l)
                &&& post == sprites_drawn(
                    lcd,
                    paint(lcd.screen@, ly, 160, bg_line(lcd, ly)),
                    ly,
                    l,
                    0,
                    bg_colors_of(lcd, ly),
                    bg_priority_of(lcd, ly),
                )
            }
    }
}

/// Drawing the sprites reads nothing of the screen but the one given.
pub proof fn lemma_sprites_frame(
    a: LCD,
    b: LCD,
    ly: u8,
    l: Seq<SpriteInfo>,
    k: int,
    screen: Seq<u8>,
    bgcolors: Seq<u8>,
    priority: Seq<u8>,
)
    requires
        a == (LCD { screen: a.screen, ..b }),
    ensures
        sprites_drawn(a, screen, ly, l, k, bgcolors, priority) == sprites_drawn(
            b,
            screen,
            ly,
            l,
            k,
            bgcolors,
            priority,
        ),
    decreases l.len() - k,
{
    if 0 <= k < l.len() {
        lemma_sprites_frame(a, b, ly, l, k + 1, screen, bgcolors, priority);
        assert(sprite_mask(a, l[k], ly, bgcolors, priority, 8) =~= sprite_mask(
            b,
            l[k],
            ly,
            bgcolors,
            priority,
            8,
        ));
        assert(sprite_colors(a, l[k], ly) =~= sprite_colors(b, l[k], ly));
    }
}

/// Which sprites a line shows reads nothing of the screen.
pub proof fn lemma_line_sprites_frame(a: LCD, b: LCD, ly: u8, l: Seq<SpriteInfo>)
    requires
        a == (LCD { screen: a.screen, ..b }),
    ensures
        line_sprites(a, ly, a.regs.lcdc.obj_size, l) == line_sprites(b, ly, b.regs.lcdc.obj_size, l),
{
    let size = a.regs.lcdc.obj_size;
    assert forall|v: u8| #[trigger] sprite_of(a, v, size) == sprite_of(b, v, size) by {}
    assert forall|k: int|
        #![trigger listed(a, ly, size, l[k])]
        #![trigger listed(b, ly, size, l[k])]
        listed(a, ly, size, l[k]) == listed(b, ly, size, l[k]) by {
        assert(sprite_of(a, l[k].id, size) == sprite_of(b, l[k].id, size));
    }
    if line_sprites(a, ly, size, l) {
        assert forall|v: u8|
            v < 40 && on_line(#[trigger] sprite_of(b, v, size), ly, size) implies (exists|k: int|
            0 <= k < l.len() && #[trigger] l[k].id == v) || (l.len() == 10 && drawn_before(
            l[9],
            sprite_of(b, v, size),
        )) by {
            assert(sprite_of(a, v, size) == sprite_of(b, v, size));
        }
        assert(forall|k: int| 0 <= k < l.len() ==> #[trigger] listed(b, ly, size, l[k]));
        assert(line_sprites(b, ly, size, l));
    }
    if line_sprites(b, ly, size, l) {
        assert forall|v: u8|
            v < 40 && on_line(#[trigger] sprite_of(a, v, size), ly, size) implies (exists|k: int|
            0 <= k < l.len() && #[trigger] l[k].id == v) || (l.len() == 10 && drawn_before(
            l[9],
            sprite_of(a, v, size),
        )) by {
            assert(sprite_of(a, v, size) == sprite_of(b, v, size));
        }
        assert(forall|k: int| 0 <= k < l.len() ==> #[trigger] listed(a, ly, size, l[k]));
        assert(line_sprites(a, ly, size, l));
    }
}

/// The background specs read nothing of the screen.
proof fn lemma_bg_pixel_frame(a: LCD, b: LCD, i: u8, ly: u8)
    requires
        a == (LCD { screen: a.screen, ..b }),
    ensures
        bg_color(a, i, ly) == bg_color(b, i, ly),
        bg_rgb(a, i, ly) == bg_rgb(b, i, ly),
        entry_attributes(a, map_entry(a.regs, i, ly)) == entry_attributes(b, map_entry(b.regs, i, ly)),
{
}

/// Painting pixel `i` after the first `i` pixels paints the first `i + 1`.
proof fn lemma_paint_step(
    screen0: Seq<u8>,
    before: Seq<u8>,
    after: Seq<u8>,
    ly: u8,
    i: u8,
    c: Seq<u8>,
    rgb: spec_fn(int) -> Seq<u8>,
)
    requires
        ly < SCREEN_HEIGHT,
        i < SCREEN_WIDTH,
        c == rgb(i as int),
        before == paint(screen0, ly, i as int, rgb),
        after == Seq::new(
            before.len(),
            |j: int|
                if ly * 640 + i * 4 <= j < ly * 640 + i * 4 + 3 && i + (j - ly * 640 - i * 4) < 160 {
                    c[j - ly * 640 - i * 4]
                } else {
                    before[j]
                },
        ),
    ensures
        after == paint(screen0, ly, i + 1, rgb),
{
    assert forall|j: int| 0 <= j < after.len() implies #[trigger] after[j] == paint(
        screen0,
        ly,
        i + 1,
        rgb,
    )[j] by {
        let p = j - ly * 640;
        if i * 4 <= p < i * 4 + 3 {
            assert(p / 4 == i && p % 4 == p - i * 4);
        } else if 0 <= p < i * 4 + 4 {
            assert(p < i * 4 ==> p / 4 < i);
            assert(p == i * 4 + 3 ==> p % 4 == 3);
        }
    }
    assert(after =~= paint(screen0, ly, i + 1, rgb));
}

impl LCD {
    /// Draws scan line `ly`: the background and window, then the sprites.
    pub(crate) fn draw_line(&mut self, ly: u8)
        requires
            old(self).wf(),
        ensures
            final(self).wf(),
            *final(self) == (LCD { screen: final(self).screen, ..*old(self) }),
            line_drawn(*old(self), ly, final(self).screen@),
    {
        reveal(line_drawn);
        if ly >= SCREEN_HEIGHT {
            return ;
        }
        let ghost lcd0 = *self;
        let (bgcolors, priority) = self.draw_bg(ly);
        let ghost lcd1 = *self;
        assert(bgcolors@ =~= bg_colors_of(lcd0, ly));
        assert(priority@ =~= bg_priority_of(lcd0, ly));
        self.draw_sprites(ly, &bgcolors, &priority);
        proof {
            let l = choose|l: Seq<SpriteInfo>|
                {
                    &&& line_sprites(lcd1, ly, lcd1.regs.lcdc.obj_size, l)
                    &&& self.screen@ == sprites_drawn(
                        lcd1,
                        lcd1.screen@,
                        ly,
                        l,
                        0,
                        bgcolors@,
                        priority@,
                    )
                };
            lemma_sprites_frame(lcd1, lcd0, ly, l, 0, lcd1.screen@, bgcolors@, priority@);
            lemma_line_sprites_frame(lcd1, lcd0, ly, l);
        }
    }

    /// Draws the background and window pixels of line `ly`; returns the
    /// colour number of each background pixel and, on the colour console,
    /// its priority bit.
    pub(crate) fn draw_bg(&mut self, ly: u8) -> (r: (Vec<u8>, Vec<u8>))
        requires
            old(self).wf(),
            ly < SCREEN_HEIGHT,
        ensures
            final(self).wf(),
            *final(self) == (LCD { screen: final(self).screen, ..*old(self) }),
            final(self).screen@ == paint(old(self).screen@, ly, 160, bg_line(*old(self), ly)),
            r.0@.len() == SCREEN_WIDTH,
            r.1@.len() == SCREEN_WIDTH,
            forall|i: int|
                0 <= i < 160 ==> #[trigger] r.0@[i] == (if bg_shown(old(self).regs, ly)
                    && !shows_window(old(self).regs, i as u8, ly) {
                    bg_color(*old(self), i as u8, ly)
                } else {
                    0
                }),
            forall|i: int|
                0 <= i < 160 ==> #[trigger] r.1@[i] == (if bg_shown(old(self).regs, ly) && old(
                    self,
                ).cgb && !shows_window(old(self).regs, i as u8, ly) && entry_attributes(
                    *old(self),
                    map_entry(old(self).regs, i as u8, ly),
                ).priority {
                    1u8
                } else {
                    0
                }),
    {
        let ghost lcd0 = *self;
        let ghost rgb = bg_line(lcd0, ly);
        let mut bgcolors: Vec<u8> = vec![0; SCREEN_WIDTH as usize];
        let mut priority: Vec<u8> = vec![0; SCREEN_WIDTH as usize];
        let shown = self.regs.lcdc.bg_display || (self.regs.lcdc.window_display_enable
            && self.regs.wx <= 166 && self.regs.wy <= ly);
        let mut i: u8 = 0;
        while i < SCREEN_WIDTH
            invariant
                lcd0 == *old(self),
                rgb == bg_line(lcd0, ly),
                shown == bg_shown(lcd0.regs, ly),
                self.wf(),
                ly < SCREEN_HEIGHT,
                i <= SCREEN_WIDTH,
                *self == (LCD { screen: self.screen, ..lcd0 }),
                self.screen@ == paint(lcd0.screen@, ly, i as int, rgb),
                bgcolors@.len() == SCREEN_WIDTH,
                priority@.len() == SCREEN_WIDTH,
                forall|k: int|
                    0 <= k < 160 ==> #[trigger] bgcolors@[k] == (if k < i && shown && !shows_window(
                        lcd0.regs,
                        k as u8,
                        ly,
                    ) {
                        bg_color(lcd0, k as u8, ly)
                    } else {
                        0
                    }),
                forall|k: int|
                    0 <= k < 160 ==> #[trigger] priority@[k] == (if k < i && shown && lcd0.cgb
                        && !shows_window(lcd0.regs, k as u8, ly) && entry_attributes(
                        lcd0,
                        map_entry(lcd0.regs, k as u8, ly),
                    ).priority {
                        1u8
                    } else {
                        0
                    }),
            decreases SCREEN_WIDTH - i,
        {
            let pixel = if shown {
                let (color, pixel, window, prio) = self.bg_pixel(i, ly);
                proof {
                    lemma_bg_pixel_frame(*self, lcd0, i, ly);
                }
                if self.cgb && !window {
                    priority.set(i as usize, prio);
                }
                if !window {
                    bgcolors.set(i as usize, color);
                }
                pixel
            } else {
                Color::new(0xff, 0xff, 0xff)
            };
            let ghost before = self.screen@;
            self.set_pixel(i, ly, pixel);
            proof {
                assert(pixel.rgb@ == rgb(i as int));
                lemma_paint_step(lcd0.screen@, before, self.screen@, ly, i, pixel.rgb@, rgb);
            }
            i = i + 1;
        }
        (bgcolors, priority)
    }

    /// Pixel `i` of line `ly` of the background or window: its colour
    /// number, its colour, whether the window shows there, and the priority
    /// bit of its map entry.
    fn bg_pixel(&self, i: u8, ly: u8) -> (r: (u8, Color, bool, u8))
        requires
            self.wf(),
            i < SCREEN_WIDTH,
            ly < SCREEN_HEIGHT,
        ensures
            r.0 == bg_color(*self, i, ly),
            r.1.rgb@ == bg_rgb(*self, i, ly),
            r.2 == shows_window(self.regs, i, ly),
            r.3 == (if entry_attributes(*self, map_entry(self.regs, i, ly)).priority {
                1u8
            } else {
                0
            }),
    {
        let (row, pixel_x, tile_info, show_window) = self.bg_locate(i, ly);
        let (bottom, top) = (self.video[row], self.video[row + 1]);
        let color = LCD::color_number(pixel_x, top, bottom);
        let pixel = if self.cgb {
            proof {
                let p = tile_info.palette;
                bytes::lemma_byte_arith(p);
            }
            let palette = self.read_palette(&self.regs.bgpd, tile_info.palette);
            let c = palette.color(color);
            proof {
                bytes::lemma_masks(color);
                let k = (color & 0x03) as int;
                assert(c.rgb@ == palette.color@[k].rgb@);
                assert(c.rgb@ == palette_rgb(self.regs.bgpd@, tile_info.palette, color));
            }
            c
        } else {
            self.regs.bgp.color(color)
        };
        let prio: u8 = if tile_info.priority {
            0x01
        } else {
            0x00
        };
        (color, pixel, show_window, prio)
    }

    /// The column and row, in the window or the background map, of pixel `i`
    /// of line `ly`, the index in video RAM of its map entry, and whether the
    /// window shows there.
    #[verifier::rlimit(40)]
    fn bg_map_coords(&self, i: u8, ly: u8) -> (r: (u8, u8, usize, bool))
        requires
            self.wf(),
        ensures
            r.0 == map_x(self.regs, i, ly),
            r.1 == map_y(self.regs, i, ly),
            r.2 == map_entry(self.regs, i, ly),
            0x1800 <= r.2 < 0x2000,
            r.3 == shows_window(self.regs, i, ly),
    {
        let show_window = self.regs.lcdc.window_display_enable && self.regs.wx.wrapping_sub(7) <= i
            && self.regs.wy <= ly;
        let (x, y, select_tile_map) = if show_window {
            (
                i.wrapping_sub(self.regs.wx).wrapping_add(7),
                ly.wrapping_sub(self.regs.wy),
                self.regs.lcdc.window_tile_map_display_select,
            )
        } else {
            (
                i.wrapping_add(self.regs.scx),
                ly.wrapping_add(self.regs.scy),
                self.regs.lcdc.bg_tile_map_display_select,
            )
        };
        let tile_map: u16 = if select_tile_map {
            0x1c00
        } else {
            0x1800
        };
        let (tile_x, tile_y) = (x / 8, y / 8);
        let tile_address = (tile_map + (tile_y as u16 * 32) + tile_x as u16) as usize;
        (x, y, tile_address, show_window)
    }

    /// Where pixel `i` of line `ly` of the background or window takes its
    /// colour from: the index of its row of tile data in video RAM, the bit
    /// of that row, the attributes of its map entry, and whether the window
    /// shows there.
    #[verifier::rlimit(40)]
    fn bg_locate(&self, i: u8, ly: u8) -> (r: (usize, u8, BGMapAttributes, bool))
        requires
            self.wf(),
            i < SCREEN_WIDTH,
            ly < SCREEN_HEIGHT,
        ensures
            r.0 == bg_row(*self, i, ly),
            r.0 + 1 < VIDEO_BYTES,
            r.1 < 8,
            r.1 == (if !r.2.reverse_x {
                7 - map_x(self.regs, i, ly) % 8
            } else {
                (map_x(self.regs, i, ly) % 8) as int
            }),
            r.2 == entry_attributes(*self, map_entry(self.regs, i, ly)),
            r.2.palette <= 7,
            r.3 == shows_window(self.regs, i, ly),
    {
        let unsigned = self.regs.lcdc.bg_window_tile_data_select;
        let tile_data: u16 = if unsigned {
            0x0000
        } else {
            0x1000
        };
        let (x, y, tile_address, show_window) = self.bg_map_coords(i, ly);
        let tile = self.video[tile_address];
        let tile_info = if self.cgb {
            BGMapAttributes::from(self.video[tile_address + 0x2000])
        } else {
            BGMapAttributes::default()
        };
        let (pixel_x, pixel_y) = (
            if !tile_info.reverse_x {
                7 - (x % 8)
            } else {
                x % 8
            },
            if !tile_info.reverse_y {
                y % 8
            } else {
                7 - (y % 8)
            },
        );
        let address = if !unsigned {
            proof {
                bytes::lemma_signed_byte(tile);
            }
            let a: i16 = tile as i8 as i16 * 16;
            let b: i16 = pixel_y as i8 as i16 * 2;
            let t = (tile_data as i16).wrapping_add(a).wrapping_add(b) as u16;
            assert(t == 0x1000 + signed_tile(tile) * 16 + pixel_y * 2);
            t as usize
        } else {
            tile_data.wrapping_add(tile as u16 * 16).wrapping_add(pixel_y as u16 * 2) as usize
        };
        proof {
            if self.cgb {
                lemma_bg_attributes_bounds(self.video@[tile_address + 0x2000]);
            } else {
                lemma_bg_attributes_bounds(0);
            }
        }
        assert(tile_info == entry_attributes(*self, tile_address as int));
        (address + (0x2000 * tile_info.bank), pixel_x, tile_info, show_window)
    }

    /// Draws the sprites on line `ly` over the background, last sprite
    /// first, so that the first one ends up on top.
    pub(crate) fn draw_sprites(&mut self, ly: u8, bgcolors: &[u8], priority: &[u8])
        requires
            old(self).wf(),
            ly < SCREEN_HEIGHT,
            bgcolors@.len() == SCREEN_WIDTH,
            priority@.len() == SCREEN_WIDTH,
        ensures
            final(self).wf(),
            *final(self) == (LCD { screen: final(self).screen, ..*old(self) }),
            exists|l: Seq<SpriteInfo>|
                {
                    &&& line_sprites(*old(self), ly, old(self).regs.lcdc.obj_size, l)
                    &&& final(self).screen@ == sprites_drawn(
                        *old(self),
                        old(self).screen@,
                        ly,
                        l,
                        0,
                        bgcolors@,
                        priority@,
                    )
                },
    {
        let ghost lcd0 = *self;
        let sprites = self.get_sprites(ly, self.regs.lcdc.obj_size);
        let size: i16 = match self.regs.lcdc.obj_size {
            SpriteSize::Large => 16,
            SpriteSize::Small => 8,
        };
        let mut k: usize = sprites.len();
        while k > 0
            invariant
                lcd0 == *old(self),
                self.wf(),
                ly < SCREEN_HEIGHT,
                k <= sprites@.len(),
                line_sprites(lcd0, ly, lcd0.regs.lcdc.obj_size, sprites@),
                size as int == sprite_height(lcd0.regs.lcdc.obj_size),
                bgcolors@.len() == SCREEN_WIDTH,
                priority@.len() == SCREEN_WIDTH,
                *self == (LCD { screen: self.screen, ..lcd0 }),
                self.screen@ == sprites_drawn(lcd0, lcd0.screen@, ly, sprites@, k as int, bgcolors@, priority@),
            decreases k,
        {
            k = k - 1;
            let info = sprites[k];
            assert(listed(lcd0, ly, lcd0.regs.lcdc.obj_size, sprites@[k as int]));
            self.draw_sprite(info, ly, size, bgcolors, priority);
        }
    }

    /// Draws one sprite of line `ly` over the screen.
    fn draw_sprite(&mut self, info: SpriteInfo, ly: u8, size: i16, bgcolors: &[u8], priority: &[u8])
        requires
            old(self).wf(),
            ly < SCREEN_HEIGHT,
            listed(*old(self), ly, old(self).regs.lcdc.obj_size, info),
            size as int == sprite_height(old(self).regs.lcdc.obj_size),
            bgcolors@.len() == SCREEN_WIDTH,
            priority@.len() == SCREEN_WIDTH,
        ensures
            final(self).wf(),
            *final(self) == (LCD { screen: final(self).screen, ..*old(self) }),
            final(self).screen@ == overlay(
                old(self).screen@,
                ly,
                sprite_mask(*old(self), info, ly, bgcolors@, priority@, 8),
                sprite_colors(*old(self), info, ly),
            ),
    {
        let ghost lcd0 = *self;
        let ghost colors = sprite_colors(lcd0, info, ly);
        let address = self.sprite_row_address(info, ly, size);
        let (bottom, top) = (self.video[address], self.video[address + 1]);
        let sprite_x = info.x as u16 as i16 - 8;
        let mut x: i16 = 0;
        while x < 8
            invariant
                lcd0 == *old(self),
                self.wf(),
                ly < SCREEN_HEIGHT,
                0 <= x <= 8,
                sprite_x == info.x - 8,
                listed(lcd0, ly, lcd0.regs.lcdc.obj_size, info),
                bgcolors@.len() == SCREEN_WIDTH,
                priority@.len() == SCREEN_WIDTH,
                address == sprite_row(lcd0, info, ly),
                bottom == lcd0.video@[address as int],
                top == lcd0.video@[address + 1],
                colors == sprite_colors(lcd0, info, ly),
                *self == (LCD { screen: self.screen, ..lcd0 }),
                self.screen@ == overlay(
                    lcd0.screen@,
                    ly,
                    sprite_mask(lcd0, info, ly, bgcolors@, priority@, x as int),
                    colors,
                ),
            decreases 8 - x,
        {
            self.draw_sprite_pixel(info, ly, x, sprite_x, top, bottom, bgcolors, priority);
            x = x + 1;
        }
    }

    /// The index into video RAM of the row of tile data that a sprite shows
    /// on line `ly`.
    #[verifier::rlimit(30)]
    fn sprite_row_address(&self, info: SpriteInfo, ly: u8, size: i16) -> (r: usize)
        requires
            self.wf(),
            ly < SCREEN_HEIGHT,
            listed(*self, ly, self.regs.lcdc.obj_size, info),
            size as int == sprite_height(self.regs.lcdc.obj_size),
        ensures
            r == sprite_row(*self, info, ly),
            r + 1 < VIDEO_BYTES,
    {
        assert(info.flags.bank <= 1) by {
            let f = self.read_spec((0xfe00 + info.id * 4 + 3) as u16);
            bytes::lemma_byte_arith(f);
        }
        assert(16 <= info.y && ly + 16 - info.y < size) by {
            assert(on_line(info, ly, self.regs.lcdc.obj_size));
            if info.y < 16 {
                assert(wrap8(info.y - 16) == info.y + 240);
            }
            assert(wrap8(info.y - 16) == info.y - 16);
            assert(wrap8(wrap8(info.y - 16) + size) == info.y - 16 + size);
        }
        let sprite_y = info.y as u16 as i16 - 16;
        let tile_y = if info.flags.reverse_y {
            (size - 1 - (ly as i16 - sprite_y)) as u16
        } else {
            (ly as i16 - sprite_y) as u16
        } as u8;
        let bank: u16 = if self.cgb {
            0x2000 * (info.flags.bank as u16)
        } else {
            0
        };
        ((info.tile as u16) * 16 + tile_y.wrapping_mul(2) as u16 + bank) as usize
    }

    /// Draws pixel `x` of a sprite's row of tile data (`top`, `bottom`), if
    /// it shows.
    fn draw_sprite_pixel(
        &mut self,
        info: SpriteInfo,
        ly: u8,
        x: i16,
        sprite_x: i16,
        top: u8,
        bottom: u8,
        bgcolors: &[u8],
        priority: &[u8],
    )
        requires
            old(self).wf(),
            ly < SCREEN_HEIGHT,
            0 <= x < 8,
            sprite_x == info.x - 8,
            listed(*old(self), ly, old(self).regs.lcdc.obj_size, info),
            bgcolors@.len() == SCREEN_WIDTH,
            priority@.len() == SCREEN_WIDTH,
            bottom == old(self).video@[sprite_row(*old(self), info, ly)],
            top == old(self).video@[sprite_row(*old(self), info, ly) + 1],
        ensures
            final(self).wf(),
            *final(self) == (LCD { screen: final(self).screen, ..*old(self) }),
            forall|s0: Seq<u8>, lcd0: LCD|
                lcd0 == (LCD { screen: lcd0.screen, ..*old(self) }) && old(self).screen@ == overlay(
                    s0,
                    ly,
                    sprite_mask(lcd0, info, ly, bgcolors@, priority@, x as int),
                    sprite_colors(lcd0, info, ly),
                ) && s0.len() == SCREEN_BYTES ==> final(self).screen@ == #[trigger] overlay(
                    s0,
                    ly,
                    sprite_mask(lcd0, info, ly, bgcolors@, priority@, x + 1),
                    sprite_colors(lcd0, info, ly),
                ),
    {
        let ghost before = self.screen@;
        proof {
            let f = self.read_spec((0xfe00 + info.id * 4 + 3) as u16);
            bytes::lemma_masks(f);
            bytes::lemma_byte_arith(f);
            bytes::lemma_byte_arith(info.flags.color_palette);
        }
        let screen_x = sprite_x.wrapping_add(x);
        if screen_x < SCREEN_WIDTH as u16 as i16 && screen_x >= 0 {
            let pixel_x = if info.flags.reverse_x {
                x
            } else {
                7 - x
            };
            let color = LCD::color_number(pixel_x as u8, top, bottom);
            let screen_x = screen_x as usize;
            if !(color == 0x00 || (info.flags.priority && (bgcolors[screen_x] > 0
                || priority[screen_x] > 0) && !self.regs.lcdc.bg_display)) {
                let pixel = if self.cgb {
                    let palette = self.read_palette(&self.regs.obpd, info.flags.color_palette);
                    let c = palette.color(color);
                    proof {
                        bytes::lemma_masks(color);
                        let k = (color & 0x03) as int;
                        assert(c.rgb@ == palette.color@[k].rgb@);
                    }
                    c
                } else {
                    let obp = if info.flags.palette == 1 {
                        self.regs.obp1
                    } else {
                        self.regs.obp0
                    };
                    obp.color(color)
                };
                self.set_pixel(screen_x as u8, ly, pixel);
                proof {
                    assert forall|s0: Seq<u8>, lcd0: LCD|
                        lcd0 == (LCD { screen: lcd0.screen, ..*old(self) }) && before == overlay(
                            s0,
                            ly,
                            sprite_mask(lcd0, info, ly, bgcolors@, priority@, x as int),
                            sprite_colors(lcd0, info, ly),
                        ) && s0.len() == SCREEN_BYTES implies self.screen@ == #[trigger] overlay(
                        s0,
                        ly,
                        sprite_mask(lcd0, info, ly, bgcolors@, priority@, x + 1),
                        sprite_colors(lcd0, info, ly),
                    ) by {
                        assert(color == sprite_color(lcd0, info, ly, screen_x as int));
                        assert(pixel.rgb@ == sprite_colors(lcd0, info, ly)(screen_x as int));
                        lemma_overlay_step(
                            s0,
                            before,
                            self.screen@,
                            ly,
                            screen_x as u8,
                            pixel.rgb@,
                            sprite_mask(lcd0, info, ly, bgcolors@, priority@, x as int),
                            sprite_mask(lcd0, info, ly, bgcolors@, priority@, x + 1),
                            sprite_colors(lcd0, info, ly),
                        );
                    }
                }
            } else {
                proof {
                    assert forall|s0: Seq<u8>, lcd0: LCD|
                        lcd0 == (LCD { screen: lcd0.screen, ..*old(self) }) implies #[trigger] overlay(
                        s0,
                        ly,
                        sprite_mask(lcd0, info, ly, bgcolors@, priority@, x + 1),
                        sprite_colors(lcd0, info, ly),
                    ) == overlay(
                        s0,
                        ly,
                        sprite_mask(lcd0, info, ly, bgcolors@, priority@, x as int),
                        sprite_colors(lcd0, info, ly),
                    ) by {
                        assert(color == sprite_color(lcd0, info, ly, screen_x as int));
                        lemma_overlay_same(
                            s0,
                            ly,
                            sprite_mask(lcd0, info, ly, bgcolors@, priority@, x as int),
                            sprite_mask(lcd0, info, ly, bgcolors@, priority@, x + 1),
                            sprite_colors(lcd0, info, ly),
                        );
                    }
                }
            }
        } else {
            proof {
                assert forall|s0: Seq<u8>, lcd0: LCD|
                    lcd0 == (LCD { screen: lcd0.screen, ..*old(self) }) implies #[trigger] overlay(
                    s0,
                    ly,
                    sprite_mask(lcd0, info, ly, bgcolors@, priority@, x + 1),
                    sprite_colors(lcd0, info, ly),
                ) == overlay(
                    s0,
                    ly,
                    sprite_mask(lcd0, info, ly, bgcolors@, priority@, x as int),
                    sprite_colors(lcd0, info, ly),
                ) by {
                    lemma_overlay_same(
                        s0,
                        ly,
                        sprite_mask(lcd0, info, ly, bgcolors@, priority@, x as int),
                        sprite_mask(lcd0, info, ly, bgcolors@, priority@, x + 1),
                        sprite_colors(lcd0, info, ly),
                    );
                }
            }
        }
    }

    /// Writes a colour into the screen buffer at pixel `x` of line `y`; a
    /// channel whose byte would lie past the end of the line is left out.
    pub(crate) fn set_pixel(&mut self, x: u8, y: u8, c: Color)
        requires
            old(self).wf(),
            y < SCREEN_HEIGHT,
        ensures
            final(self).wf(),
            *final(self) == (LCD { screen: final(self).screen, ..*old(self) }),
            final(self).screen@ == Seq::new(
                old(self).screen@.len(),
                |j: int|
                    if y * 640 + x * 4 <= j < y * 640 + x * 4 + 3 && x + (j - y * 640 - x * 4) < 160 {
                        c.rgb@[j - y * 640 - x * 4]
                    } else {
                        old(self).screen@[j]
                    },
            ),
    {
        let (xx, yy, width) = (x as usize, y as usize, SCREEN_WIDTH as usize);
        let ghost before = self.screen@;
        let mut i: usize = 0;
        while i < 3
            invariant
                0 <= i <= 3,
                old(self).wf(),
                self.wf(),
                y < SCREEN_HEIGHT,
                xx == x,
                yy == y,
                width == 160,
                before == old(self).screen@,
                *self == (LCD { screen: self.screen, ..*old(self) }),
                self.screen@ == Seq::new(
                    before.len(),
                    |j: int|
                        if y * 640 + x * 4 <= j < y * 640 + x * 4 + i && x + (j - y * 640 - x * 4) < 160 {
                            c.rgb@[j - y * 640 - x * 4]
                        } else {
                            before[j]
                        },
                ),
            decreases 3 - i,
        {
            if xx + i < width {
                self.screen.set((yy * width * 4) + (xx * 4) + i, c.rgb[i]);
            }
            proof {
                assert(self.screen@ =~= Seq::new(
                    before.len(),
                    |j: int|
                        if y * 640 + x * 4 <= j < y * 640 + x * 4 + i + 1 && x + (j - y * 640 - x * 4) < 160 {
                            c.rgb@[j - y * 640 - x * 4]
                        } else {
                            before[j]
                        },
                ));
            }
            i = i + 1;
        }
    }

    /// The sprites on line `ly`, by their x position (the earlier one first
    /// where two share it), at most ten.
    #[verifier::rlimit(40)]
    pub(crate) fn get_sprites(&self, ly: u8, size: SpriteSize) -> (r: Vec<SpriteInfo>)
        requires
            self.wf(),
        ensures
            line_sprites(*self, ly, size, r@),
    {
        let sprite_size: u8 = if size == SpriteSize::Large {
            16
        } else {
            8
        };
        let mut sprites: Vec<SpriteInfo> = Vec::new();
        let mut id: u8 = 0;
        while id < 40
            invariant
                self.wf(),
                id <= 40,
                sprite_size as int == sprite_height(size),
                sprites@.len() <= id,
                forall|k: int|
                    0 <= k < sprites@.len() ==> #[trigger] sprites@[k].id < id && listed(
                        *self,
                        ly,
                        size,
                        sprites@[k],
                    ),
                forall|j: int, k: int|
                    0 <= j < k < sprites@.len() ==> #[trigger] sprites@[j].id < #[trigger] sprites@[k].id,
                forall|v: u8|
                    v < id && on_line(#[trigger] sprite_of(*self, v, size), ly, size) ==> exists|k: int|
                        0 <= k < sprites@.len() && #[trigger] sprites@[k].id == v,
            decreases 40 - id,
        {
            let info = SpriteInfo::from_memory(self, id, size);
            assert(info == sprite_of(*self, id, size));
            if ((info.x as i16).wrapping_sub(8) >= -8 && (info.x as i16).wrapping_sub(8) < 160) && ly
                >= info.y.wrapping_sub(16) && ly < info.y.wrapping_sub(16).wrapping_add(sprite_size) {
                assert(on_line(info, ly, size));
                let ghost before = sprites@;
                sprites.push(info);
                proof {
                    assert forall|v: u8|
                        v < id + 1 && on_line(#[trigger] sprite_of(*self, v, size), ly, size) implies exists|k: int|
                        0 <= k < sprites@.len() && #[trigger] sprites@[k].id == v by {
                        if v == id {
                            assert(sprites@[sprites@.len() - 1].id == v);
                        } else {
                            let k = choose|k: int| 0 <= k < before.len() && #[trigger] before[k].id == v;
                            assert(sprites@[k].id == v);
                        }
                    }
                }
            } else {
                assert(!on_line(info, ly, size));
            }
            id = id + 1;
        }
        let ghost filtered = sprites@;
        let mut n: usize = 1;
        while n < sprites.len()
            invariant
                self.wf(),
                1 <= n,
                sprites@.len() == filtered.len(),
                forall|k: int| 0 <= k < sprites@.len() ==> #[trigger] listed(*self, ly, size, sprites@[k]),
                forall|v: u8|
                    v < 40 && on_line(#[trigger] sprite_of(*self, v, size), ly, size) ==> exists|k: int|
                        0 <= k < sprites@.len() && #[trigger] sprites@[k].id == v,
                forall|a: int, b: int|
                    0 <= a < b < n && b < sprites@.len() ==> drawn_before(
                        #[trigger] sprites@[a],
                        #[trigger] sprites@[b],
                    ),
                forall|k: int| n <= k < sprites@.len() ==> #[trigger] sprites@[k] == filtered[k],
                forall|a: int, b: int|
                    0 <= a < n <= b < sprites@.len() ==> #[trigger] sprites@[a].id < #[trigger] sprites@[b].id,
                forall|j: int, k: int|
                    0 <= j < k < filtered.len() ==> #[trigger] filtered[j].id < #[trigger] filtered[k].id,
            decreases sprites@.len() - n,
        {
            let ghost e = sprites@[n as int];
            let mut m: usize = n;
            while m > 0 && sprites[m - 1].x > sprites[m].x
                invariant
                    self.wf(),
                    1 <= n < sprites@.len(),
                    m <= n,
                    sprites@.len() == filtered.len(),
                    sprites@[m as int] == e,
                    e == filtered[n as int],
                    forall|k: int| 0 <= k < sprites@.len() ==> #[trigger] listed(*self, ly, size, sprites@[k]),
                    forall|v: u8|
                        v < 40 && on_line(#[trigger] sprite_of(*self, v, size), ly, size) ==> exists|k: int|
                            0 <= k < sprites@.len() && #[trigger] sprites@[k].id == v,
                    forall|a: int, b: int|
                        0 <= a < b <= n && a != m && b != m ==> drawn_before(
                            #[trigger] sprites@[a],
                            #[trigger] sprites@[b],
                        ),
                    forall|b: int| m < b <= n ==> drawn_before(e, #[trigger] sprites@[b]),
                    forall|a: int| 0 <= a <= n && a != m ==> #[trigger] sprites@[a].id < e.id,
                    forall|k: int| n < k < sprites@.len() ==> #[trigger] sprites@[k] == filtered[k],
                    forall|a: int, b: int|
                        0 <= a <= n < b < sprites@.len() ==> #[trigger] sprites@[a].id < #[trigger] sprites@[b].id,
                    forall|j: int, k: int|
                        0 <= j < k < filtered.len() ==> #[trigger] filtered[j].id < #[trigger] filtered[k].id,
                decreases m,
            {
                let a = sprites[m - 1];
                let b = sprites[m];
                let ghost before = sprites@;
                sprites.set(m - 1, b);
                sprites.set(m, a);
                proof {
                    assert forall|v: u8|
                        v < 40 && on_line(#[trigger] sprite_of(*self, v, size), ly, size) implies exists|k: int|
                        0 <= k < sprites@.len() && #[trigger] sprites@[k].id == v by {
                        let k = choose|k: int| 0 <= k < before.len() && #[trigger] before[k].id == v;
                        if k == m - 1 {
                            assert(sprites@[m as int].id == v);
                        } else if k == m {
                            assert(sprites@[m - 1].id == v);
                        } else {
                            assert(sprites@[k].id == v);
                        }
                    }
                }
                m = m - 1;
            }
            proof {
                if m > 0 {
                    assert(drawn_before(sprites@[m - 1], e));
                }
            }
            n = n + 1;
        }
        let ghost sorted = sprites@;
        sprites.truncate(10);
        proof {
            let s = sprites@;
            assert forall|v: u8|
                v < 40 && on_line(#[trigger] sprite_of(*self, v, size), ly, size) implies (exists|k: int|
                0 <= k < s.len() && #[trigger] s[k].id == v) || (s.len() == 10 && drawn_before(
                s[9],
                sprite_of(*self, v, size),
            )) by {
                let k = choose|k: int| 0 <= k < sorted.len() && #[trigger] sorted[k].id == v;
                if k < 10 {
                    assert(s[k].id == v);
                } else {
                    assert(listed(*self, ly, size, sorted[k]));
                    assert(drawn_before(sorted[9], sorted[k]));
                }
            }
            assert forall|j: int, k: int| 0 <= j < k < s.len() implies drawn_before(
                #[trigger] s[j],
                #[trigger] s[k],
            ) by {
                assert(drawn_before(sorted[j], sorted[k]));
            }
            assert forall|k: int| 0 <= k < s.len() implies #[trigger] listed(*self, ly, size, s[k]) by {
                assert(listed(*self, ly, size, sorted[k]));
            }
        }
        sprites
    }

    /// The colour number of pixel `bit` of a tile row: bit `bit` of `top`
    /// is its high bit, of `bottom` its low bit.
    pub(crate) fn color_number(bit: u8, top: u8, bottom: u8) -> (r: u8)
        requires
            bit < 8,
        ensures
            r == ((top >> bit) & 1) * 2 + ((bottom >> bit) & 1),
            r < 4,
    {
        assert(bit < 8 ==> ((((top >> bit) & 1) << 1) | (bottom >> bit) & 1) == ((top >> bit) & 1) * 2
            + ((bottom >> bit) & 1) && ((top >> bit) & 1) * 2 + ((bottom >> bit) & 1) < 4) by (bit_vector);
        (((top >> bit) & 1) << 1) | (bottom >> bit) & 1
    }

    /// Colour palette `index` out of palette data `pd`: four 15-bit colours,
    /// low byte first.
    pub(crate) fn read_palette(&self, pd: &[u8], index: u8) -> (r: ColorPalette)
        requires
            (index & 0x3f) * 8 + 8 <= pd@.len(),
        ensures
            forall|i: int|
                0 <= i < 4 ==> #[trigger] r.color@[i].rgb@ == color_of(
                    word(pd@[(index & 0x3f) * 8 + i * 2 + 1], pd@[(index & 0x3f) * 8 + i * 2]),
                ),
    {
        proof {
            bytes::lemma_masks(index);
        }
        let index = (index & 0x3f) as usize;
        let mut colors: [u16; 4] = [0;4];
        let mut i: usize = 0;
        while i < 4
            invariant
                0 <= i <= 4,
                index < 64,
                index * 8 + 8 <= pd@.len(),
                forall|k: int|
                    0 <= k < i ==> #[trigger] colors@[k] == word(pd@[index * 8 + k * 2 + 1], pd@[index * 8 + k * 2]),
            decreases 4 - i,
        {
            let low = pd[index * 8 + i * 2];
            let high = pd[index * 8 + i * 2 + 1];
            colors[i] = bytes::assemble(high, low);
            i = i + 1;
        }
        ColorPalette::from_u16(colors[0], colors[1], colors[2], colors[3])
    }
}

} // verus!
