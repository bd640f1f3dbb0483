//! The status line: text drawn over the picture with the built-in font, and how it slides
//! away; and the screen scale.

use vstd::prelude::*;
use vstd::string::StringSliceAdditionalSpecFns;

verus! {

pub const SCREEN_WIDTH: usize = 256;
pub const SCREEN_HEIGHT: usize = 240;

pub const FONT_HEIGHT: usize = 10;
pub const FONT_GLYPH_COUNT: usize = 95;
pub const FONT_GLYPH_LENGTH: usize = 950;

pub const STATUS_LINE_PADDING: usize = 6;
pub const STATUS_LINE_X: usize = 6;
/// SCREEN_HEIGHT - STATUS_LINE_PADDING - FONT_HEIGHT
pub const STATUS_LINE_Y: usize = 224;
/// in 1/60 of a second
pub const STATUS_LINE_PAUSE_DURATION: usize = 120;

pub const SCREEN_SIZE: usize = 184320;

//
// PT Ronda Seven
//
// (c) Yusuke Kamiyamane, http://pinvoke.com/
//

/// Ten rows of eight pixels for each printable ASCII character from ' ' on; bit 7 is the
/// leftmost pixel.
pub const FONT_GLYPHS: [u8; 950] = [
      0,   0,   0,   0,   0,   0,   0,   0,   0,   0,  // ' '
      0,  64,  64,  64,  64,  64,   0,  64,   0,   0,  // '!'
      0, 160, 160,   0,   0,   0,   0,   0,   0,   0,  // '"'
      0,  80,  80, 248,  80, 248,  80,  80,   0,   0,  // '#'
     32, 112, 168, 160, 112,  40, 168, 112,  32,   0,  // '$'
      0,  66, 164,  72,  16,  36,  74, 132,   0,   0,  // '%'
      0,  96, 144, 160,  72, 168, 144, 104,   0,   0,  // '&'
      0, 128, 128,   0,   0,   0,   0,   0,   0,   0,  // '''
     32,  64, 128, 128, 128, 128, 128,  64,  32,   0,  // '('
    128,  64,  32,  32,  32,  32,  32,  64, 128,   0,  // ')'
      0,  32, 168, 112, 168,  32,   0,   0,   0,   0,  // '*'
      0,   0,  32,  32, 248,  32,  32,   0,   0,   0,  // '+'
      0,   0,   0,   0,   0,   0,   0,  64,  64, 128,  // ','
      0,   0,   0,   0,   0, 224,   0,   0,   0,   0,  // '-'
      0,   0,   0,   0,   0,   0,   0,  64,   0,   0,  // '.'
      8,   8,  16,  16,  32,  64,  64, 128, 128,   0,  // '/'
      0, 112, 136, 136, 136, 136, 136, 112,   0,   0,  // '0'
      0, 192,  64,  64,  64,  64,  64,  64,   0,   0,  // '1'
      0, 112, 136,   8,  16,  32,  64, 248,   0,   0,  // '2'
      0, 112, 136,   8,  48,   8, 136, 112,   0,   0,  // '3'
      0,  48,  80,  80, 144, 248,  16,  16,   0,   0,  // '4'
      0, 248, 128, 128, 240,   8, 136, 112,   0,   0,  // '5'
      0, 112, 136, 128, 240, 136, 136, 112,   0,   0,  // '6'
      0, 248,   8,  16,  16,  32,  32,  64,   0,   0,  // '7'
      0, 112, 136, 136, 112, 136, 136, 112,   0,   0,  // '8'
      0, 112, 136, 136, 120,   8, 136, 112,   0,   0,  // '9'
      0,   0,   0,  64,   0,   0,   0,  64,   0,   0,  // ':'
      0,   0,   0,  64,   0,   0,   0,  64,  64, 128,  // ';'
      0,   0,  32,  64, 128,  64,  32,   0,   0,   0,  // '<'
      0,   0,   0, 224,   0, 224,   0,   0,   0,   0,  // '='
      0,   0, 128,  64,  32,  64, 128,   0,   0,   0,  // '>'
      0, 112, 136,   8,  16,  32,   0,  32,   0,   0,  // '?'
     60,  66, 157, 165, 165, 173, 149,  66,  56,   0,  // '@'
      0, 112, 136, 136, 248, 136, 136, 136,   0,   0,  // 'A'
      0, 240, 136, 136, 240, 136, 136, 240,   0,   0,  // 'B'
      0, 112, 136, 128, 128, 128, 136, 112,   0,   0,  // 'C'
      0, 240, 136, 136, 136, 136, 136, 240,   0,   0,  // 'D'
      0, 248, 128, 128, 240, 128, 128, 248,   0,   0,  // 'E'
      0, 248, 128, 128, 240, 128, 128, 128,   0,   0,  // 'F'
      0, 112, 136, 128, 184, 136, 152, 104,   0,   0,  // 'G'
      0, 136, 136, 136, 248, 136, 136, 136,   0,   0,  // 'H'
      0, 128, 128, 128, 128, 128, 128, 128,   0,   0,  // 'I'
      0,  16,  16,  16,  16,  16, 144,  96,   0,   0,  // 'J'
      0, 136, 144, 160, 192, 160, 144, 136,   0,   0,  // 'K'
      0, 128, 128, 128, 128, 128, 128, 240,   0,   0,  // 'L'
      0, 130, 198, 170, 146, 130, 130, 130,   0,   0,  // 'M'
      0, 136, 200, 168, 168, 168, 152, 136,   0,   0,  // 'N'
      0, 112, 136, 136, 136, 136, 136, 112,   0,   0,  // 'O'
      0, 240, 136, 136, 240, 128, 128, 128,   0,   0,  // 'P'
      0, 112, 136, 136, 136, 136, 136, 112,   8,   0,  // 'Q'
      0, 240, 136, 136, 240, 160, 144, 136,   0,   0,  // 'R'
      0, 112, 136, 128, 112,   8, 136, 112,   0,   0,  // 'S'
      0, 248,  32,  32,  32,  32,  32,  32,   0,   0,  // 'T'
      0, 136, 136, 136, 136, 136, 136, 112,   0,   0,  // 'U'
      0, 136, 136,  80,  80,  80,  32,  32,   0,   0,  // 'V'
      0, 146, 146, 146, 146, 146, 146, 108,   0,   0,  // 'W'
      0, 136, 136,  80,  32,  80, 136, 136,   0,   0,  // 'X'
      0, 136, 136,  80,  32,  32,  32,  32,   0,   0,  // 'Y'
      0, 248,   8,  16,  32,  64, 128, 248,   0,   0,  // 'Z'
    224, 128, 128, 128, 128, 128, 128, 128, 224,   0,  // '['
    128, 128,  64,  64,  32,  16,  16,   8,   8,   0,  // '\'
    224,  32,  32,  32,  32,  32,  32,  32, 224,   0,  // ']'
      0,  64, 160,   0,   0,   0,   0,   0,   0,   0,  // '^'
      0,   0,   0,   0,   0,   0,   0, 224,   0,   0,  // '_'
      0,   0,   0,   0,   0,   0,   0,   0,   0,   0,  // '`'
      0,   0,   0, 112, 144, 144, 176,  80,   0,   0,  // 'a'
      0, 128, 128, 160, 208, 144, 144, 224,   0,   0,  // 'b'
      0,   0,   0,  96, 144, 128, 144,  96,   0,   0,  // 'c'
      0,  16,  16, 112, 144, 144, 176,  80,   0,   0,  // 'd'
      0,   0,   0,  96, 144, 240, 128,  96,   0,   0,  // 'e'
      0,  96, 128, 192, 128, 128, 128, 128,   0,   0,  // 'f'
      0,   0,   0, 112, 144, 144, 176,  80,  16,  96,  // 'g'
      0, 128, 128, 160, 208, 144, 144, 144,   0,   0,  // 'h'
      0, 128,   0, 128, 128, 128, 128, 128,   0,   0,  // 'i'
      0, 128,   0, 128, 128, 128, 128, 128, 128,   0,  // 'j'
      0, 128, 128, 144, 160, 192, 160, 144,   0,   0,  // 'k'
      0, 128, 128, 128, 128, 128, 128, 128,   0,   0,  // 'l'
      0,   0,   0, 164, 218, 146, 146, 146,   0,   0,  // 'm'
      0,   0,   0, 160, 208, 144, 144, 144,   0,   0,  // 'n'
      0,   0,   0,  96, 144, 144, 144,  96,   0,   0,  // 'o'
      0,   0,   0, 160, 208, 144, 144, 224, 128, 128,  // 'p'
      0,   0,   0, 112, 144, 144, 176,  80,  16,  16,  // 'q'
      0,   0,   0, 160, 192, 128, 128, 128,   0,   0,  // 'r'
      0,   0,   0,  96, 128,  64,  32, 192,   0,   0,  // 's'
      0,  64,  64, 224,  64,  64,  64,  64,   0,   0,  // 't'
      0,   0,   0, 144, 144, 144, 176,  80,   0,   0,  // 'u'
      0,   0,   0, 144, 144, 144, 144,  96,   0,   0,  // 'v'
      0,   0,   0, 146, 146, 146, 146, 108,   0,   0,  // 'w'
      0,   0,   0, 144, 144,  96, 144, 144,   0,   0,  // 'x'
      0,   0,   0, 144, 144, 144, 176,  80,  16,  96,  // 'y'
      0,   0,   0, 224,  32,  64, 128, 224,   0,   0,  // 'z'
     32,  64,  64,  64, 128,  64,  64,  64,  32,   0,  // '{'
    128, 128, 128, 128, 128, 128, 128, 128, 128,   0,  // '|'
    128,  64,  64,  64,  32,  64,  64,  64, 128,   0,  // '}'
      0,  80, 160,   0,   0,   0,   0,   0,   0,   0,  // '~'
];

/// How far the pen moves after each glyph.
pub const FONT_ADVANCES: [u8; 95] = [
    3 /*   */, 3 /* ! */, 4 /* " */, 6 /* # */, 6 /* $ */, 8 /* % */, 6 /* & */, 2 /* ' */,
    4 /* ( */, 4 /* ) */, 6 /* * */, 6 /* + */, 3 /* , */, 4 /* - */, 3 /* . */, 5 /* / */,
    6 /* 0 */, 3 /* 1 */, 6 /* 2 */, 6 /* 3 */, 6 /* 4 */, 6 /* 5 */, 6 /* 6 */, 6 /* 7 */,
    6 /* 8 */, 6 /* 9 */, 3 /* : */, 3 /* ; */, 4 /* < */, 4 /* = */, 4 /* > */, 6 /* ? */,
    8 /* @ */, 6 /* A */, 6 /* B */, 6 /* C */, 6 /* D */, 6 /* E */, 6 /* F */, 6 /* G */,
    6 /* H */, 2 /* I */, 5 /* J */, 6 /* K */, 5 /* L */, 8 /* M */, 6 /* N */, 6 /* O */,
    6 /* P */, 6 /* Q */, 6 /* R */, 6 /* S */, 6 /* T */, 6 /* U */, 6 /* V */, 8 /* W */,
    6 /* X */, 6 /* Y */, 6 /* Z */, 4 /* [ */, 6 /* \ */, 4 /* ] */, 4 /* ^ */, 4 /* _ */,
    3 /* ` */, 5 /* a */, 5 /* b */, 5 /* c */, 5 /* d */, 5 /* e */, 3 /* f */, 5 /* g */,
    5 /* h */, 2 /* i */, 2 /* j */, 5 /* k */, 2 /* l */, 8 /* m */, 5 /* n */, 5 /* o */,
    5 /* p */, 5 /* q */, 4 /* r */, 4 /* s */, 4 /* t */, 5 /* u */, 5 /* v */, 8 /* w */,
    5 /* x */, 5 /* y */, 4 /* z */, 4 /* { */, 2 /* | */, 4 /* } */, 5 /* ~ */,
];

//
// Text output
//

#[derive(Clone, Copy, PartialEq, Eq, Structural)]
pub enum GlyphColor {
    White,
    Black,
}

pub open spec fn glyph_color_byte(color: GlyphColor) -> u8 {
    match color {
        GlyphColor::White => 0xff,
        GlyphColor::Black => 0x00,
    }
}

/// Whether pixel `xi` of row `yi` of a glyph is set.
pub open spec fn glyph_bit(glyph: int, yi: int, xi: int) -> bool {
    (FONT_GLYPHS@[glyph * 10 + yi] >> ((7 - xi) as u8)) & 1 != 0
}

/// The byte of channel `ch` of the pixel at (x + xi, y + yi) in a surface `w` pixels wide,
/// three bytes per pixel.
pub open spec fn glyph_byte_index(x: int, y: int, w: int, yi: int, xi: int, ch: int) -> int {
    (y + yi) * w * 3 + (x + xi) * 3 + ch
}

/// Whether one of the first `n` (row, column, channel) steps of drawing the glyph, counted
/// row by row, writes byte `p`.
pub open spec fn glyph_hits(x: int, y: int, w: int, glyph: int, p: int, n: int) -> bool {
    exists|k: int|
        0 <= k < n && #[trigger] glyph_bit(glyph, k / 24, (k / 3) % 8) && glyph_byte_index(
            x,
            y,
            w,
            k / 24,
            (k / 3) % 8,
            k % 3,
        ) == p
}

/// The surface after drawing a glyph: the bytes of its set pixels that fall inside the
/// surface take the colour.
pub open spec fn spec_draw_glyph(pixels: Seq<u8>, w: int, x: int, y: int, color: GlyphColor, glyph: int) -> Seq<u8> {
    Seq::new(
        pixels.len(),
        |p: int| if glyph_hits(x, y, w, glyph, p, 240) { glyph_color_byte(color) } else { pixels[p] },
    )
}

/// The pixel index arithmetic of a glyph drawn at (x, y) on a surface `w` pixels wide stays
/// within `isize`: the rows y to y + 9, the columns x to x + 7, and the products and sums
/// `(row * w + column) * 3 + channel` that the drawing computes from them.
pub open spec fn glyph_fits(w: int, x: int, y: int) -> bool {
    &&& 0 <= w <= isize::MAX
    &&& isize::MIN <= y && y + 10 <= isize::MAX
    &&& isize::MIN <= x && x + 8 <= isize::MAX
    &&& isize::MIN <= 3 * w * y && 3 * w * (y + 9) <= isize::MAX
    &&& isize::MIN <= 3 * x && 3 * (x + 7) <= isize::MAX
    &&& isize::MIN <= 3 * w * y + 3 * x && 3 * w * (y + 9) + 3 * (x + 7) + 2 <= isize::MAX
}

pub fn draw_glyph(pixels: &mut [u8], surface_width: usize, x: isize, y: isize, color: GlyphColor, glyph_index: usize)
    requires
        glyph_index < FONT_GLYPH_COUNT,
        glyph_fits(surface_width as int, x as int, y as int),
    ensures
        final(pixels)@ == spec_draw_glyph(old(pixels)@, surface_width as int, x as int, y as int, color, glyph_index as int),
{
    let color_byte = match color {
        GlyphColor::White => 0xff,
        GlyphColor::Black => 0x00,
    };
    let ghost (gx, gy, gw, gg) = (x as int, y as int, surface_width as int, glyph_index as int);
    let mut y_index: isize = 0;
    while y_index < 10
        invariant
            0 <= y_index <= 10,
            glyph_index < FONT_GLYPH_COUNT,
            glyph_fits(gw, gx, gy),
            gx == x, gy == y, gw == surface_width, gg == glyph_index,
            color_byte == glyph_color_byte(color),
            pixels@.len() == old(pixels)@.len(),
            forall|p: int| 0 <= p < pixels@.len() ==> #[trigger] pixels@[p] == (if glyph_hits(gx, gy, gw, gg, p, y_index * 24) { color_byte } else { old(pixels)@[p] }),
        decreases 10 - y_index,
    {
        let row = FONT_GLYPHS[glyph_index * 10 + y_index as usize];
        let mut x_index: isize = 0;
        while x_index < 8
            invariant
                0 <= y_index < 10,
                0 <= x_index <= 8,
                glyph_index < FONT_GLYPH_COUNT,
                glyph_fits(gw, gx, gy),
                gx == x, gy == y, gw == surface_width, gg == glyph_index,
                row == FONT_GLYPHS@[glyph_index * 10 + y_index],
                color_byte == glyph_color_byte(color),
                pixels@.len() == old(pixels)@.len(),
                forall|p: int| 0 <= p < pixels@.len() ==> #[trigger] pixels@[p] == (if glyph_hits(gx, gy, gw, gg, p, y_index * 24 + x_index * 3) { color_byte } else { old(pixels)@[p] }),
            decreases 8 - x_index,
        {
            let shift: u8 = (7 - x_index) as u8;
            let set = ((row >> shift) & 1) != 0;
            let mut channel: isize = 0;
            while channel < 3
                invariant
                    0 <= y_index < 10,
                    0 <= x_index < 8,
                    0 <= channel <= 3,
                    glyph_index < FONT_GLYPH_COUNT,
                    glyph_fits(gw, gx, gy),
                    gx == x, gy == y, gw == surface_width, gg == glyph_index,
                    set == glyph_bit(gg, y_index as int, x_index as int),
                    color_byte == glyph_color_byte(color),
                    pixels@.len() == old(pixels)@.len(),
                    forall|p: int| 0 <= p < pixels@.len() ==> #[trigger] pixels@[p] == (if glyph_hits(gx, gy, gw, gg, p, y_index * 24 + x_index * 3 + channel) { color_byte } else { old(pixels)@[p] }),
                decreases 3 - channel,
            {
                let ghost k = y_index * 24 + x_index * 3 + channel;
                assert(k / 24 == y_index && (k / 3) % 8 == x_index && k % 3 == channel);
                let sw = surface_width as isize;
                assert(isize::MIN <= (y + y_index) * sw <= isize::MAX
                    && 3 * sw * y <= (y + y_index) * sw * 3 <= 3 * sw * (y + 9)) by (nonlinear_arith)
                    requires
                        0 <= y_index <= 9,
                        0 <= sw,
                        isize::MIN <= 3 * sw * y,
                        3 * sw * (y + 9) <= isize::MAX,
                ;
                let index = (y + y_index) * sw * 3 + (x + x_index) * 3 + channel;
                assert(index == glyph_byte_index(gx, gy, gw, y_index as int, x_index as int, channel as int)) by (nonlinear_arith)
                    requires
                        index == (gy + y_index) * gw * 3 + (gx + x_index) * 3 + channel,
                ;
                let ghost before = pixels@;
                let written = set && index >= 0 && (index as usize) < pixels.len();
                if written {
                    pixels[index as usize] = color_byte;
                }
                assert forall|p: int| 0 <= p < pixels@.len() implies #[trigger] pixels@[p] == (if glyph_hits(gx, gy, gw, gg, p, k + 1) { color_byte } else { old(pixels)@[p] }) by {
                    assert(before[p] == (if glyph_hits(gx, gy, gw, gg, p, k) { color_byte } else { old(pixels)@[p] }));
                    if written && p == index {
                        assert(pixels@[p] == color_byte);
                    } else {
                        assert(pixels@[p] == before[p]);
                    }
                    if glyph_hits(gx, gy, gw, gg, p, k) {
                        let w = choose|w: int| 0 <= w < k && #[trigger] glyph_bit(gg, w / 24, (w / 3) % 8) && glyph_byte_index(gx, gy, gw, w / 24, (w / 3) % 8, w % 3) == p;
                        assert(glyph_hits(gx, gy, gw, gg, p, k + 1));
                    }
                    if glyph_hits(gx, gy, gw, gg, p, k + 1) && !glyph_hits(gx, gy, gw, gg, p, k) {
                        let w = choose|w: int| 0 <= w < k + 1 && #[trigger] glyph_bit(gg, w / 24, (w / 3) % 8) && glyph_byte_index(gx, gy, gw, w / 24, (w / 3) % 8, w % 3) == p;
                        assert(w == k);
                    }
                    if set && p == index {
                        assert(glyph_bit(gg, k / 24, (k / 3) % 8));
                        assert(glyph_byte_index(gx, gy, gw, k / 24, (k / 3) % 8, k % 3) == p);
                        assert(glyph_hits(gx, gy, gw, gg, p, k + 1));
                    }
                }
                channel = channel + 1;
            }
            x_index = x_index + 1;
        }
        y_index = y_index + 1;
    }
}

/// The surface after drawing the bytes of a string from (x, y): each printable byte draws a
/// black shadow one pixel down, then the white glyph, and moves the pen by its advance; other
/// bytes draw nothing.
pub open spec fn spec_draw_text(pixels: Seq<u8>, w: int, x: int, y: int, bytes: Seq<u8>) -> Seq<u8>
    decreases bytes.len(),
{
    if bytes.len() == 0 {
        pixels
    } else {
        let g = bytes[0] - 32;
        let rest = bytes.subrange(1, bytes.len() as int);
        if 0 <= g < FONT_GLYPH_COUNT {
            let shadowed = spec_draw_glyph(pixels, w, x, y + 1, GlyphColor::Black, g);
            let drawn = spec_draw_glyph(shadowed, w, x, y, GlyphColor::White, g);
            spec_draw_text(drawn, w, x + FONT_ADVANCES@[g], y, rest)
        } else {
            spec_draw_text(pixels, w, x, y, rest)
        }
    }
}

/// The texts that `draw_text` takes: every glyph it draws, and its shadow one row down, fits
/// the index arithmetic, and the pen position stays within `isize`.
pub open spec fn text_fits(w: int, x: int, y: int, bytes: Seq<u8>) -> bool
    decreases bytes.len(),
{
    if bytes.len() == 0 {
        true
    } else {
        let g = bytes[0] - 32;
        let rest = bytes.subrange(1, bytes.len() as int);
        if 0 <= g < FONT_GLYPH_COUNT {
            &&& glyph_fits(w, x, y)
            &&& glyph_fits(w, x, y + 1)
            &&& text_fits(w, x + FONT_ADVANCES@[g], y, rest)
        } else {
            text_fits(w, x, y, rest)
        }
    }
}

proof fn lemma_advances()
    ensures
        forall|g: int| 0 <= g < FONT_GLYPH_COUNT ==> FONT_ADVANCES@[g] <= 8,
{
    assert forall|g: int| 0 <= g < FONT_GLYPH_COUNT implies FONT_ADVANCES@[g] <= 8 by {
        let a = FONT_ADVANCES@;
        assert(a =~= seq![
            3u8, 3, 4, 6, 6, 8, 6, 2, 4, 4, 6, 6, 3, 4, 3, 5, 6, 3, 6, 6, 6, 6, 6, 6, 6, 6, 3, 3,
            4, 4, 4, 6, 8, 6, 6, 6, 6, 6, 6, 6, 6, 2, 5, 6, 5, 8, 6, 6, 6, 6, 6, 6, 6, 6, 6, 8, 6,
            6, 6, 4, 6, 4, 4, 4, 3, 5, 5, 5, 5, 5, 3, 5, 5, 2, 2, 5, 2, 8, 5, 5, 5, 5, 4, 4, 4, 5,
            5, 8, 5, 5, 4, 4, 2, 4, 5,
        ]);
    }
}

pub fn draw_text(pixels: &mut [u8], surface_width: usize, x: isize, y: isize, string: &str)
    requires
        text_fits(surface_width as int, x as int, y as int, string.spec_bytes()),
    ensures
        final(pixels)@ == spec_draw_text(old(pixels)@, surface_width as int, x as int, y as int, string.spec_bytes()),
{
    proof {
        lemma_advances();
    }
    let bytes = string.as_bytes();
    let ghost all = bytes@;
    let ghost (w, x0) = (surface_width as int, x as int);
    let mut x = x;
    let mut i: usize = 0;
    assert(all.subrange(0, all.len() as int) =~= all);
    while i < bytes.len()
        invariant
            all == bytes@,
            all == string.spec_bytes(),
            w == surface_width,
            text_fits(w, x as int, y as int, all.subrange(i as int, all.len() as int)),
            i <= all.len(),
            forall|g: int| 0 <= g < FONT_GLYPH_COUNT ==> FONT_ADVANCES@[g] <= 8,
            spec_draw_text(old(pixels)@, w, x0, y as int, all) == spec_draw_text(pixels@, w, x as int, y as int, all.subrange(i as int, all.len() as int)),
        decreases all.len() - i,
    {
        let ghost rest = all.subrange(i as int, all.len() as int);
        assert(rest[0] == all[i as int]);
        assert(rest.subrange(1, rest.len() as int) =~= all.subrange(i + 1, all.len() as int));
        let glyph_index = bytes[i].wrapping_sub(32) as usize;
        if glyph_index < FONT_ADVANCES.len() {
            // Shadow
            draw_glyph(pixels, surface_width, x, y + 1, GlyphColor::Black, glyph_index);
            // Main
            draw_glyph(pixels, surface_width, x, y, GlyphColor::White, glyph_index);
            x = x + FONT_ADVANCES[glyph_index] as isize;
        }
        i = i + 1;
    }
}

//
// The status line
//

#[derive(Clone, Copy, PartialEq, Eq, Structural, Debug)]
pub enum StatusLineAnimation {
    Idle,
    Pausing(usize),
    SlidingOut(usize),
}

/// The next frame of the animation: a pause counts down, then the text slides down one line
/// per frame from STATUS_LINE_Y until it leaves the screen.
pub open spec fn spec_animation_tick(a: StatusLineAnimation) -> StatusLineAnimation {
    match a {
        StatusLineAnimation::Idle => StatusLineAnimation::Idle,
        StatusLineAnimation::Pausing(t) => if t == 0 {
            StatusLineAnimation::SlidingOut(STATUS_LINE_Y)
        } else {
            StatusLineAnimation::Pausing((t - 1) as usize)
        },
        StatusLineAnimation::SlidingOut(y) => if y == SCREEN_HEIGHT {
            StatusLineAnimation::Idle
        } else {
            StatusLineAnimation::SlidingOut((y + 1) as usize)
        },
    }
}

/// The animation after `n` frames.
pub open spec fn animation_after(a: StatusLineAnimation, n: nat) -> StatusLineAnimation
    decreases n,
{
    if n == 0 { a } else { animation_after(spec_animation_tick(a), (n - 1) as nat) }
}

pub struct StatusLineText {
    string: String,
    animation: StatusLineAnimation,
}

/// A status line text that `draw_text` takes on the row where it is shown, if it is shown.
pub open spec fn status_text_fits(s: Seq<char>, row: Option<int>) -> bool {
    row matches Some(y) ==> text_fits(SCREEN_WIDTH as int, STATUS_LINE_X as int, y, vstd::utf8::encode_utf8(s))
}

impl StatusLineText {
    #[verifier::type_invariant]
    closed spec fn inv(self) -> bool {
        match self.animation {
            StatusLineAnimation::Idle => true,
            StatusLineAnimation::Pausing(t) => t <= STATUS_LINE_PAUSE_DURATION,
            StatusLineAnimation::SlidingOut(y) => STATUS_LINE_Y <= y <= SCREEN_HEIGHT,
        }
    }

    pub closed spec fn text(self) -> Seq<char> {
        self.string@
    }

    pub closed spec fn animation(self) -> StatusLineAnimation {
        self.animation
    }

    pub fn new() -> (t: StatusLineText)
        ensures
            t.text() == Seq::<char>::empty(),
            t.animation() == StatusLineAnimation::Idle,
    {
        StatusLineText { string: String::new(), animation: StatusLineAnimation::Idle }
    }

    pub fn set(&mut self, string: String)
        ensures
            final(self).text() == string@,
            final(self).animation() == StatusLineAnimation::Pausing(STATUS_LINE_PAUSE_DURATION),
    {
        *self = StatusLineText { string, animation: StatusLineAnimation::Pausing(STATUS_LINE_PAUSE_DURATION) };
    }

    pub fn tick(&mut self)
        ensures
            final(self).text() == old(self).text(),
            final(self).animation() == spec_animation_tick(old(self).animation()),
    {
        proof {
            use_type_invariant(&*self);
        }
        self.animation = match self.animation {
            StatusLineAnimation::Idle => StatusLineAnimation::Idle,
            StatusLineAnimation::Pausing(0) => StatusLineAnimation::SlidingOut(STATUS_LINE_Y),
            StatusLineAnimation::Pausing(time) => StatusLineAnimation::Pausing(time - 1),
            StatusLineAnimation::SlidingOut(SCREEN_HEIGHT) => StatusLineAnimation::Idle,
            StatusLineAnimation::SlidingOut(y) => StatusLineAnimation::SlidingOut(y + 1),
        }
    }

    /// The row at which the text is drawn, when it is shown.
    pub open spec fn spec_row(self) -> Option<int> {
        match self.animation() {
            StatusLineAnimation::Idle => None,
            StatusLineAnimation::SlidingOut(y) => Some(y as int),
            StatusLineAnimation::Pausing(_) => Some(STATUS_LINE_Y as int),
        }
    }

    pub fn render(&self, pixels: &mut [u8])
        requires
            status_text_fits(self.text(), self.spec_row()),
        ensures
            final(pixels)@ == match self.spec_row() {
                None => old(pixels)@,
                Some(y) => spec_draw_text(old(pixels)@, SCREEN_WIDTH as int, STATUS_LINE_X as int, y, vstd::utf8::encode_utf8(self.text())),
            },
    {
        proof {
            use_type_invariant(self);
        }
        if self.animation == StatusLineAnimation::Idle {
            return;
        }
        let y = match self.animation {
            StatusLineAnimation::SlidingOut(y) => y as isize,
            _ => STATUS_LINE_Y as isize,
        };
        let s = self.string.as_str();
        proof {
            assert(s.spec_bytes() == vstd::utf8::encode_utf8(self.text()));
        }
        draw_text(pixels, SCREEN_WIDTH, STATUS_LINE_X as isize, y, s);
    }
}

pub struct StatusLine {
    text: StatusLineText,
}

impl StatusLine {
    pub closed spec fn text(self) -> StatusLineText {
        self.text
    }

    pub fn new() -> (s: StatusLine)
        ensures
            s.text().text() == Seq::<char>::empty(),
            s.text().animation() == StatusLineAnimation::Idle,
    {
        StatusLine { text: StatusLineText::new() }
    }

    pub fn set(&mut self, new_text: String)
        ensures
            final(self).text().text() == new_text@,
            final(self).text().animation() == StatusLineAnimation::Pausing(STATUS_LINE_PAUSE_DURATION),
    {
        self.text.set(new_text);
    }

    pub fn tick(&mut self)
        ensures
            final(self).text().text() == old(self).text().text(),
            final(self).text().animation() == spec_animation_tick(old(self).text().animation()),
    {
        self.text.tick();
    }

    pub fn render(&self, pixels: &mut [u8])
        requires
            status_text_fits(self.text().text(), self.text().spec_row()),
        ensures
            final(pixels)@ == match self.text().spec_row() {
                None => old(pixels)@,
                Some(y) => spec_draw_text(old(pixels)@, SCREEN_WIDTH as int, STATUS_LINE_X as int, y, vstd::utf8::encode_utf8(self.text().text())),
            },
    {
        self.text.render(pixels);
    }
}

//
// Screen scaling
//

#[derive(Clone, Copy, PartialEq, Eq, Structural, Debug)]
pub enum Scale {
    Scale1x,
    Scale2x,
    Scale3x,
}

impl Scale {
    pub fn factor(self) -> (f: usize)
        ensures
            f == match self {
                Scale::Scale1x => 1usize,
                Scale::Scale2x => 2,
                Scale::Scale3x => 3,
            },
    {
        match self {
            Scale::Scale1x => 1,
            Scale::Scale2x => 2,
            Scale::Scale3x => 3,
        }
    }
}


//
// Laws of the status line animation
//

proof fn lemma_after_split(a: StatusLineAnimation, m: nat, n: nat)
    ensures
        animation_after(a, m + n) == animation_after(animation_after(a, m), n),
    decreases m,
{
    if m > 0 {
        lemma_after_split(spec_animation_tick(a), (m - 1) as nat, n);
        assert((m + n - 1) as nat == (m - 1) as nat + n);
    }
}

proof fn lemma_idle_stays(n: nat)
    ensures
        animation_after(StatusLineAnimation::Idle, n) == StatusLineAnimation::Idle,
    decreases n,
{
    if n > 0 {
        lemma_idle_stays((n - 1) as nat);
    }
}

proof fn lemma_pausing(t: usize, k: nat)
    requires
        k <= t,
    ensures
        animation_after(StatusLineAnimation::Pausing(t), k) == StatusLineAnimation::Pausing((t - k) as usize),
    decreases k,
{
    if k > 0 {
        lemma_pausing((t - 1) as usize, (k - 1) as nat);
    }
}

proof fn lemma_sliding(y: usize, k: nat)
    requires
        y + k <= SCREEN_HEIGHT,
    ensures
        animation_after(StatusLineAnimation::SlidingOut(y), k) == StatusLineAnimation::SlidingOut((y + k) as usize),
    decreases k,
{
    if k > 0 {
        lemma_sliding((y + 1) as usize, (k - 1) as nat);
    }
}

/// The number of frames from a pause of `t` frames until the status line is idle: the pause
/// runs down to 0, the text starts to slide at STATUS_LINE_Y, moves down a line per frame until
/// it reaches the bottom of the screen, and the next frame hides it.
pub open spec fn frames_until_idle(t: usize) -> nat {
    (t + 1 + (SCREEN_HEIGHT - STATUS_LINE_Y) + 1) as nat
}

/// A message set on the status line stays visible (paused, then sliding away) for exactly
/// `frames_until_idle` frames of its pause, and from then on the status line is idle.
pub proof fn lemma_status_line_hides(t: usize, n: nat)
    ensures
        n < frames_until_idle(t) ==> animation_after(StatusLineAnimation::Pausing(t), n) != StatusLineAnimation::Idle,
        n >= frames_until_idle(t) ==> animation_after(StatusLineAnimation::Pausing(t), n) == StatusLineAnimation::Idle,
{
    let p = StatusLineAnimation::Pausing(t);
    let slide: nat = (SCREEN_HEIGHT - STATUS_LINE_Y) as nat;
    if n <= t {
        lemma_pausing(t, n);
    } else {
        lemma_pausing(t, t as nat);
        lemma_after_split(p, t as nat, (n - t) as nat);
        lemma_after_split(StatusLineAnimation::Pausing(0), 1, (n - t - 1) as nat);
        assert(animation_after(StatusLineAnimation::Pausing(0), 1) == StatusLineAnimation::SlidingOut(STATUS_LINE_Y)) by {
            reveal_with_fuel(animation_after, 2);
        }
        let k: nat = (n - t - 1) as nat;
        if k <= slide {
            lemma_sliding(STATUS_LINE_Y, k);
        } else {
            lemma_sliding(STATUS_LINE_Y, slide);
            lemma_after_split(StatusLineAnimation::SlidingOut(STATUS_LINE_Y), slide, (k - slide) as nat);
            lemma_after_split(StatusLineAnimation::SlidingOut(SCREEN_HEIGHT), 1, (k - slide - 1) as nat);
            assert(animation_after(StatusLineAnimation::SlidingOut(SCREEN_HEIGHT), 1) == StatusLineAnimation::Idle) by {
                reveal_with_fuel(animation_after, 2);
            }
            lemma_idle_stays((k - slide - 1) as nat);
        }
    }
}


} // verus!
