//! The picture processing unit: its registers, its memory (VRAM and OAM), and the
//! scanline renderer.

use vstd::prelude::*;

use crate::mapper::{AnyMapper, Mapper};
use crate::mem::{Mem, wrap8, wrap16, lemma_wrap8, lemma_wrap16};

verus! {

broadcast use {lemma_wrap8, lemma_wrap16};

//
// Constants
//

pub const SCREEN_WIDTH: usize = 256;
pub const SCREEN_HEIGHT: usize = 240;
/// 29781 cycles per frame, 240 scanlines
pub const CYCLES_PER_SCANLINE: u64 = 124;
pub const VBLANK_SCANLINE: usize = 241;
pub const LAST_SCANLINE: usize = 261;
/// 256 * 240 * 3
pub const SCREEN_SIZE: usize = 184320;

pub const PALETTE: [u8; 192] = [
    124, 124, 124, 0, 0, 252, 0, 0, 188, 68, 40, 188,
    148, 0, 132, 168, 0, 32, 168, 16, 0, 136, 20, 0,
    80, 48, 0, 0, 120, 0, 0, 104, 0, 0, 88, 0,
    0, 64, 88, 0, 0, 0, 0, 0, 0, 0, 0, 0,
    188, 188, 188, 0, 120, 248, 0, 88, 248, 104, 68, 252,
    216, 0, 204, 228, 0, 88, 248, 56, 0, 228, 92, 16,
    172, 124, 0, 0, 184, 0, 0, 168, 0, 0, 168, 68,
    0, 136, 136, 0, 0, 0, 0, 0, 0, 0, 0, 0,
    248, 248, 248, 60, 188, 252, 104, 136, 252, 152, 120, 248,
    248, 120, 248, 248, 88, 152, 248, 120, 88, 252, 160, 68,
    248, 184, 0, 184, 248, 24, 88, 216, 84, 88, 248, 152,
    0, 232, 216, 120, 120, 120, 0, 0, 0, 0, 0, 0,
    252, 252, 252, 164, 228, 252, 184, 184, 248, 216, 184, 248,
    248, 184, 248, 248, 164, 192, 240, 208, 176, 252, 224, 168,
    248, 216, 120, 216, 248, 120, 184, 248, 184, 184, 248, 216,
    0, 252, 252, 248, 216, 248, 0, 0, 0, 0, 0, 0,
];

//
// PPUCTRL: 0x2000
//

#[derive(Clone, Copy, PartialEq, Eq, Structural)]
pub struct PpuCtrl(pub u8);

#[derive(Clone, Copy, PartialEq, Eq, Structural)]
pub enum SpriteSize {
    SpriteSize8x8,
    SpriteSize8x16,
}

/// Bit `n` of a byte, `n` below 8, read arithmetically.
pub open spec fn bit(v: u8, n: int) -> bool {
    (v as int / pow2_8(n)) % 2 == 1
}

/// 2 to the power `n`, for `n` below 8.
pub open spec fn pow2_8(n: int) -> int {
    if n <= 0 { 1 } else if n == 1 { 2 } else if n == 2 { 4 } else if n == 3 { 8 }
    else if n == 4 { 16 } else if n == 5 { 32 } else if n == 6 { 64 } else { 128 }
}

proof fn lemma_bits(v: u8)
    ensures
        ((v & 0x01) != 0) == bit(v, 0),
        ((v & 0x02) != 0) == bit(v, 1),
        ((v & 0x04) != 0) == bit(v, 2),
        ((v & 0x08) != 0) == bit(v, 3),
        ((v & 0x10) != 0) == bit(v, 4),
        ((v & 0x20) != 0) == bit(v, 5),
        ((v & 0x40) != 0) == bit(v, 6),
        ((v & 0x80) != 0) == bit(v, 7),
        v & 0x3 == v % 4,
{
    crate::bits::lemma_byte(v);
}

/// `v` with bit `mask` (a single bit) set when `on` and cleared otherwise.
pub open spec fn with_bit(v: u8, mask: u8, on: bool) -> u8 {
    if on { v | mask } else { v & !mask }
}

impl PpuCtrl {
    /// Bits 0-1 choose one of the four nametables at $2000, $2400, $2800, $2C00.
    pub fn base_nametable_addr(self) -> (r: u16)
        ensures
            r == 0x2000 + (self.0 % 4) * 0x400,
    {
        proof {
            lemma_bits(self.0);
        }
        0x2000 + (self.0 & 0x3) as u16 * 0x400
    }

    /// Bit 2: VRAM address increment per PPUDATA access, 1 or 32.
    pub fn vram_addr_increment(self) -> (r: u16)
        ensures
            r == (if bit(self.0, 2) { 32u16 } else { 1u16 }),
    {
        proof {
            lemma_bits(self.0);
        }
        if (self.0 & 0x04) == 0 { 1 } else { 32 }
    }

    /// Bit 3: the pattern table of 8x8 sprites, $0000 or $1000.
    pub fn sprite_pattern_table_addr(self) -> (r: u16)
        ensures
            r == (if bit(self.0, 3) { 0x1000u16 } else { 0u16 }),
    {
        proof {
            lemma_bits(self.0);
        }
        if (self.0 & 0x08) == 0 { 0 } else { 0x1000 }
    }

    /// Bit 4: the pattern table of the background, $0000 or $1000.
    pub fn background_pattern_table_addr(self) -> (r: u16)
        ensures
            r == (if bit(self.0, 4) { 0x1000u16 } else { 0u16 }),
    {
        proof {
            lemma_bits(self.0);
        }
        if (self.0 & 0x10) == 0 { 0 } else { 0x1000 }
    }

    /// Bit 5: 8x8 or 8x16 sprites.
    pub fn sprite_size(self) -> (r: SpriteSize)
        ensures
            r == (if bit(self.0, 5) { SpriteSize::SpriteSize8x16 } else { SpriteSize::SpriteSize8x8 }),
    {
        proof {
            lemma_bits(self.0);
        }
        if (self.0 & 0x20) == 0 { SpriteSize::SpriteSize8x8 } else { SpriteSize::SpriteSize8x16 }
    }

    /// Bit 7: whether an NMI is generated at the start of VBLANK.
    pub fn vblank_nmi(self) -> (r: bool)
        ensures
            r == bit(self.0, 7),
    {
        proof {
            lemma_bits(self.0);
        }
        (self.0 & 0x80) != 0
    }
}

//
// PPUMASK: 0x2001
//

#[derive(Clone, Copy, PartialEq, Eq, Structural)]
pub struct PpuMask(pub u8);

impl PpuMask {
    pub fn grayscale(self) -> (r: bool)
        ensures
            r == bit(self.0, 0),
    {
        proof {
            lemma_bits(self.0);
        }
        (self.0 & 0x01) != 0
    }

    pub fn show_background_on_left(self) -> (r: bool)
        ensures
            r == bit(self.0, 1),
    {
        proof {
            lemma_bits(self.0);
        }
        (self.0 & 0x02) != 0
    }

    pub fn show_sprites_on_left(self) -> (r: bool)
        ensures
            r == bit(self.0, 2),
    {
        proof {
            lemma_bits(self.0);
        }
        (self.0 & 0x04) != 0
    }

    pub fn show_background(self) -> (r: bool)
        ensures
            r == bit(self.0, 3),
    {
        proof {
            lemma_bits(self.0);
        }
        (self.0 & 0x08) != 0
    }

    pub fn show_sprites(self) -> (r: bool)
        ensures
            r == bit(self.0, 4),
    {
        proof {
            lemma_bits(self.0);
        }
        (self.0 & 0x10) != 0
    }

    pub fn intensify_reds(self) -> (r: bool)
        ensures
            r == bit(self.0, 5),
    {
        proof {
            lemma_bits(self.0);
        }
        (self.0 & 0x20) != 0
    }

    pub fn intensify_greens(self) -> (r: bool)
        ensures
            r == bit(self.0, 6),
    {
        proof {
            lemma_bits(self.0);
        }
        (self.0 & 0x40) != 0
    }

    pub fn intensity_blues(self) -> (r: bool)
        ensures
            r == bit(self.0, 7),
    {
        proof {
            lemma_bits(self.0);
        }
        (self.0 & 0x80) != 0
    }
}

//
// PPUSTATUS: 0x2002
//

#[derive(Clone, Copy, PartialEq, Eq, Structural)]
pub struct PpuStatus(pub u8);

impl PpuStatus {
    // TODO: open bus junk in bits [0,5)
    /// Sets or clears bit 5, the sprite overflow flag.
    pub fn set_sprite_overflow(&mut self, val: bool)
        ensures
            final(self).0 == with_bit(old(self).0, 0x20, val),
    {
        if val {
            *self = PpuStatus(self.0 | 0x20)
        } else {
            *self = PpuStatus(self.0 & !0x20)
        }
    }

    /// Sets or clears bit 6, the sprite 0 hit flag.
    pub fn set_sprite_zero_hit(&mut self, val: bool)
        ensures
            final(self).0 == with_bit(old(self).0, 0x40, val),
    {
        if val {
            *self = PpuStatus(self.0 | 0x40)
        } else {
            *self = PpuStatus(self.0 & !0x40)
        }
    }

    /// Sets or clears bit 7, the VBLANK flag.
    pub fn set_in_vblank(&mut self, val: bool)
        ensures
            final(self).0 == with_bit(old(self).0, 0x80, val),
    {
        if val {
            *self = PpuStatus(self.0 | 0x80)
        } else {
            *self = PpuStatus(self.0 & !0x80)
        }
    }
}

//
// PPUSCROLL: 0x2005
//

#[derive(Clone, Copy, PartialEq, Eq, Structural)]
pub enum PpuScrollDir {
    XDir,
    YDir,
}

#[derive(Clone, Copy, PartialEq, Eq, Structural)]
pub struct PpuScroll {
    pub x: u8,
    pub y: u8,
    pub next: PpuScrollDir,
}

//
// Registers
//

#[derive(Clone, Copy, PartialEq, Eq, Structural)]
pub struct Regs {
    /// PPUCTRL: 0x2000
    pub ctrl: PpuCtrl,
    /// PPUMASK: 0x2001
    pub mask: PpuMask,
    /// PPUSTATUS: 0x2002
    pub status: PpuStatus,
    /// OAMADDR: 0x2003
    pub oam_addr: u8,
    /// PPUSCROLL: 0x2005
    pub scroll: PpuScroll,
    /// PPUADDR: 0x2006
    pub addr: u16,
}

//
// PPU VRAM. This implements the same Mem trait that the CPU memory does.
//

pub struct Vram {
    /// The cartridge, which holds the pattern tables (CHR).
    pub mapper: AnyMapper,
    /// 4 nametables, 0x400 each
    pub nametables: [u8; 0x1000],
    pub palette: [u8; 0x20],
}

impl Vram {
    pub fn new(mapper: AnyMapper) -> (v: Vram)
        ensures
            v.mapper == mapper,
            forall|i: int| 0 <= i < 0x1000 ==> v.nametables@[i] == 0,
            forall|i: int| 0 <= i < 0x20 ==> v.palette@[i] == 0,
    {
        Vram { mapper: mapper, nametables: [0; 0x1000], palette: [0; 0x20] }
    }

    /// The byte that a read of `addr` gives: the pattern tables below $2000, the nametables
    /// (mirrored every $1000) below $3F00, the palette (mirrored every $20) below $4000.
    pub open spec fn peek(self, addr: u16) -> Option<u8> {
        if addr < 0x2000 {
            self.mapper.chr_load_spec(addr)
        } else if addr < 0x3f00 {
            Some(self.nametables@[(addr % 0x1000) as int])
        } else if addr < 0x4000 {
            Some(self.palette@[(addr % 0x20) as int])
        } else {
            None
        }
    }
}

impl Mem for Vram {
    open spec fn load_spec(&self, addr: u16) -> Option<(Self, u8)> {
        match self.peek(addr) {
            Some(v) => Some((*self, v)),
            None => None,
        }
    }

    open spec fn store_spec(&self, addr: u16, val: u8) -> Option<Self> {
        if addr < 0x2000 {
            Some(Vram { mapper: self.mapper.chr_store_spec(addr, val), ..*self })
        } else if addr < 0x3f00 {
            Some(Vram {
                nametables: vstd::array::spec_array_update(self.nametables, (addr % 0x1000) as int, val),
                ..*self
            })
        } else if addr < 0x4000 {
            Some(Vram {
                palette: vstd::array::spec_array_update(self.palette, (addr % 0x20) as int, val),
                ..*self
            })
        } else {
            Some(*self)
        }
    }

    #[inline(always)]
    fn loadb(&mut self, addr: u16) -> (val: u8) {
        let a = addr;
        proof { crate::bits::lemma_word(a); }
        if addr < 0x2000 {
            // Tilesets 0 or 1
            return self.mapper.chr_loadb(addr);
        }
        if addr < 0x3f00 {
            // Name table area
            let addr = addr & 0x0fff;
            return self.nametables[addr as usize];
        }
        // Palette area
        let addr = addr & 0x1f;
        self.palette[addr as usize]
    }

    fn storeb(&mut self, addr: u16, val: u8) {
        let a = addr;
        proof { crate::bits::lemma_word(a); }
        if addr < 0x2000 {
            self.mapper.chr_storeb(addr, val);
        } else if addr < 0x3f00 {
            // Name table area
            let addr = addr & 0x0fff;
            self.nametables[addr as usize] = val;
        } else if addr < 0x4000 {
            // Palette area
            let addr = addr & 0x1f;
            self.palette[addr as usize] = val;
        }
    }
}

//
// Object Attribute Memory (OAM)
//

pub struct Oam {
    pub oam: [u8; 0x100],
}

impl Oam {
    pub fn new() -> (o: Oam)
        ensures
            forall|i: int| 0 <= i < 0x100 ==> o.oam@[i] == 0,
    {
        Oam { oam: [0; 0x100] }
    }
}

impl Mem for Oam {
    open spec fn load_spec(&self, addr: u16) -> Option<(Self, u8)> {
        if addr < 0x100 { Some((*self, self.oam@[addr as int])) } else { None }
    }

    open spec fn store_spec(&self, addr: u16, val: u8) -> Option<Self> {
        if addr < 0x100 {
            Some(Oam { oam: vstd::array::spec_array_update(self.oam, addr as int, val) })
        } else {
            None
        }
    }

    fn loadb(&mut self, addr: u16) -> (val: u8) {
        self.oam[addr as usize]
    }

    fn storeb(&mut self, addr: u16, val: u8) {
        self.oam[addr as usize] = val
    }
}

/// The OAM entry of one sprite.
#[derive(Clone, Copy, PartialEq, Eq, Structural)]
pub struct Sprite {
    pub x: u8,
    pub y: u8,
    pub tile_index_byte: u8,
    pub attribute_byte: u8,
}

/// Specifies the indices of the tiles that make up this sprite.
#[derive(Clone, Copy, PartialEq, Eq, Structural)]
pub enum SpriteTiles {
    SpriteTiles8x8(u16),
    SpriteTiles8x16(u16, u16),
}

#[derive(Clone, Copy, PartialEq, Eq, Structural, Debug)]
pub struct StepResult {
    /// We wrapped around to the next scanline.
    pub new_frame: bool,
    /// We entered VBLANK and must generate an NMI.
    pub vblank_nmi: bool,
}

#[derive(Clone, Copy, PartialEq, Eq, Structural, Debug)]
pub struct Rgb {
    pub r: u8,
    pub g: u8,
    pub b: u8,
}

#[derive(Clone, Copy, PartialEq, Eq, Structural)]
pub enum PatternPixelKind {
    Background,
    Sprite,
}

/// The colour of a palette index (below 64).
pub open spec fn spec_color(palette_index: u8) -> Rgb {
    Rgb {
        r: PALETTE@[palette_index * 3 + 2],
        g: PALETTE@[palette_index * 3 + 1],
        b: PALETTE@[palette_index * 3 + 0],
    }
}

/// The pixel of column `x` in a row of pattern data: bit `7 - x` of the plane.
pub open spec fn plane_bit(plane: u8, x: u8) -> int {
    ((plane >> ((7 - x % 8) as u8)) & 1) as int
}

/// The byte that a pixel of colour `c` writes at component `k` (0: red, 1: green, 2: blue).
pub open spec fn component(c: Rgb, k: int) -> u8 {
    if k == 0 { c.r } else if k == 1 { c.g } else { c.b }
}

/// The main PPU structure. This structure is separate from the PPU memory just as the CPU is.
pub struct Ppu {
    pub regs: Regs,
    pub vram: Vram,
    pub oam: Oam,
    /// 256 * 240 pixels, three bytes each
    pub screen: Vec<u8>,
    pub scanline: u16,
    pub cy: u64,
}

impl Sprite {
    /// The pattern tile of the sprite: 8x8 sprites use the table chosen by PPUCTRL, 8x16
    /// sprites pick the table with bit 0 of the tile index.
    pub fn tiles(&self, ppu: &Ppu) -> (t: SpriteTiles)
        ensures
            !bit(ppu.regs.ctrl.0, 5) ==> t == SpriteTiles::SpriteTiles8x8(
                (self.tile_index_byte + if bit(ppu.regs.ctrl.0, 3) { 0x1000int } else { 0 }) as u16,
            ),
            bit(ppu.regs.ctrl.0, 5) ==> t == SpriteTiles::SpriteTiles8x16(
                (self.tile_index_byte - self.tile_index_byte % 2 + if self.tile_index_byte % 2 == 1 {
                    0x1000int
                } else {
                    0
                }) as u16,
                (self.tile_index_byte - self.tile_index_byte % 2 + 1 + if self.tile_index_byte % 2
                    == 1 {
                    0x1000int
                } else {
                    0
                }) as u16,
            ),
    {
        let base = ppu.regs.ctrl.sprite_pattern_table_addr();
        let t = self.tile_index_byte;
        assert((t as u16 | 0u16) == t && (t as u16 | 0x1000u16) == t + 0x1000 && ((t & !1u8)
            as u16) == t - t % 2 && ((t & 1) != 0) == (t % 2 == 1)) by (bit_vector);
        match ppu.regs.ctrl.sprite_size() {
            SpriteSize::SpriteSize8x8 => SpriteTiles::SpriteTiles8x8(self.tile_index_byte as u16 | base),
            SpriteSize::SpriteSize8x16 => {
                // We ignore the base set in PPUCTRL here.
                let mut first = (self.tile_index_byte & !1u8) as u16;
                if (self.tile_index_byte & 1) != 0 {
                    first = first + 0x1000;
                }
                SpriteTiles::SpriteTiles8x16(first, first + 1)
            },
        }
    }

    /// Bits 0-1 of the attributes select one of the four sprite palettes (4 to 7).
    pub fn palette(&self) -> (p: u8)
        ensures
            p == self.attribute_byte % 4 + 4,
    {
        proof {
            lemma_bits(self.attribute_byte);
        }
        (self.attribute_byte & 3) + 4
    }

    pub fn priority(&self) -> (r: bool)
        ensures
            r == bit(self.attribute_byte, 5),
    {
        proof {
            lemma_bits(self.attribute_byte);
        }
        (self.attribute_byte & 0x20) != 0
    }

    pub fn flip_horizontal(&self) -> (r: bool)
        ensures
            r == bit(self.attribute_byte, 6),
    {
        proof {
            lemma_bits(self.attribute_byte);
        }
        (self.attribute_byte & 0x40) != 0
    }

    pub fn flip_vertical(&self) -> (r: bool)
        ensures
            r == bit(self.attribute_byte, 7),
    {
        proof {
            lemma_bits(self.attribute_byte);
        }
        (self.attribute_byte & 0x80) != 0
    }

    /// Quick test to see whether this sprite is on the given scanline.
    pub fn on_scanline(&self, ppu: &Ppu, y: u8) -> (r: bool)
        ensures
            r == ppu@.spec_on_scanline(*self, y),
    {
        if y < self.y {
            return false;
        }
        match ppu.regs.ctrl.sprite_size() {
            SpriteSize::SpriteSize8x8 => y < self.y.wrapping_add(8),
            SpriteSize::SpriteSize8x16 => y < self.y.wrapping_add(16),
        }
    }

    /// Quick test to see whether the given point is in the bounding box of this sprite.
    pub fn in_bounding_box(&self, ppu: &Ppu, x: u8, y: u8) -> (r: bool)
        ensures
            r == ppu@.spec_in_bounding_box(*self, x, y),
    {
        x >= self.x && x < self.x.wrapping_add(8) && self.on_scanline(ppu, y)
    }
}

/// The PPU as the specifications see it: the screen as a sequence of bytes.
pub struct PpuView {
    pub regs: Regs,
    pub vram: Vram,
    pub oam: Oam,
    pub screen: Seq<u8>,
    pub scanline: u16,
    pub cy: u64,
}

impl View for Ppu {
    type V = PpuView;

    open spec fn view(&self) -> PpuView {
        PpuView {
            regs: self.regs,
            vram: self.vram,
            oam: self.oam,
            screen: self.screen@,
            scanline: self.scanline,
            cy: self.cy,
        }
    }
}

impl PpuView {
    /// The screen buffer has its size and the scanline counter stays below 261.
    pub open spec fn wf(self) -> bool {
        self.screen.len() == SCREEN_SIZE && self.scanline < 261
    }

    pub open spec fn addr_increment(self) -> int {
        if bit(self.regs.ctrl.0, 2) { 32 } else { 1 }
    }

    pub open spec fn sprite_height(self) -> int {
        if bit(self.regs.ctrl.0, 5) { 16 } else { 8 }
    }

    /// Whether scanline `y` crosses the sprite; the bottom edge is computed in a byte.
    pub open spec fn spec_on_scanline(self, s: Sprite, y: u8) -> bool {
        y >= s.y && y < wrap8(s.y + self.sprite_height())
    }

    /// Whether the point is in the sprite's 8-pixel-wide box; the right edge is computed in a
    /// byte.
    pub open spec fn spec_in_bounding_box(self, s: Sprite, x: u8, y: u8) -> bool {
        x >= s.x && x < wrap8(s.x + 8) && self.spec_on_scanline(s, y)
    }

    /// Sprite `i` as OAM holds it: Y, tile index, attributes, X.
    pub open spec fn sprite_at(self, i: int) -> Sprite {
        Sprite {
            y: self.oam.oam@[4 * i],
            tile_index_byte: self.oam.oam@[4 * i + 1],
            attribute_byte: self.oam.oam@[4 * i + 2],
            x: self.oam.oam@[4 * i + 3],
        }
    }

    /// Scans the sprites from `i` on, adding those on the current scanline to `found`.  The
    /// boolean tells that a ninth sprite was met, which stops the scan.
    pub open spec fn visible_from(self, i: int, found: Seq<u8>) -> (Seq<u8>, bool)
        decreases 64 - i,
    {
        if i >= 64 {
            (found, false)
        } else if self.spec_on_scanline(self.sprite_at(i), self.scanline as u8) {
            if found.len() < 8 {
                self.visible_from(i + 1, found.push(i as u8))
            } else {
                (found, true)
            }
        } else {
            self.visible_from(i + 1, found)
        }
    }

    /// The first eight sprites on the current scanline, and whether there were more.
    pub open spec fn visible(self) -> (Seq<u8>, bool) {
        self.visible_from(0, Seq::empty())
    }

    /// The 2-bit colour of pixel (x, y) of a tile, from the pattern table at `base`.
    pub open spec fn pattern_pixel(self, base: u16, tile: u16, x: u8, y: u8) -> Option<u8> {
        let off = wrap16(wrap16(tile * 16) + y + base);
        match self.vram.peek(off) {
            Some(p0) => match self.vram.peek(wrap16(off + 8)) {
                Some(p1) => Some((2 * plane_bit(p1, x) + plane_bit(p0, x)) as u8),
                None => None,
            },
            None => None,
        }
    }

    pub open spec fn background_base(self) -> u16 {
        if bit(self.regs.ctrl.0, 4) { 0x1000 } else { 0 }
    }

    pub open spec fn sprite_base(self) -> u16 {
        if bit(self.regs.ctrl.0, 3) { 0x1000 } else { 0 }
    }

    /// The background pixel at column `x` of the current scanline: `Some(None)` when it is
    /// transparent.  The tile comes from the first nametable, the upper two bits of the
    /// colour from the attribute table, the colour itself from the background palettes.
    #[verifier::opaque]
    pub open spec fn background_pixel(self, x: u8) -> Option<Option<Rgb>> {
        let xi = x / 8;
        let yi = self.scanline / 8;
        match self.vram.peek((0x2000 + 32 * yi + xi) as u16) {
            Some(tile) => match self.pattern_pixel(
                self.background_base(),
                tile as u16,
                x % 8,
                (self.scanline % 8) as u8,
            ) {
                Some(pc) => if pc == 0 {
                    Some(None)
                } else {
                    match self.vram.peek((0x23c0 + yi / 4 * 8 + xi / 4) as u16) {
                        Some(attr) => {
                            let shift = if xi % 4 < 2 { 1int } else { 4 } * if yi % 4 < 2 {
                                1int
                            } else {
                                16
                            };
                            let ac = (attr as int / shift) % 4;
                            match self.vram.peek((0x3f00 + ac * 4 + pc) as u16) {
                                Some(pi) => Some(Some(spec_color(pi % 64))),
                                None => None,
                            }
                        },
                        None => None,
                    }
                },
                None => None,
            },
            None => None,
        }
    }

    /// Sprite `idx` drawn over `color` at column `x` of the current scanline: whether the
    /// pass goes on to the next sprite, whether sprite 0 was met in its box, and the colour.
    /// A transparent pixel of a sprite in its box ends the pass; 8x16 sprites are not drawn
    /// (`None`).
    #[verifier::opaque]
    pub open spec fn sprite_step(self, idx: u8, x: u8, zh: bool, color: Rgb) -> Option<
        (bool, bool, Rgb),
    > {
        let s = self.sprite_at(idx as int);
        let y = self.scanline as u8;
        if !self.spec_in_bounding_box(s, x, y) {
            Some((true, zh, color))
        } else if bit(self.regs.ctrl.0, 5) {
            None
        } else {
            let zh2 = zh || idx == 0;
            let dx = (x - s.x) as u8;
            let dy = (y - s.y) as u8;
            let fx = if bit(s.attribute_byte, 6) { (7 - dx) as u8 } else { dx };
            let fy = if bit(s.attribute_byte, 7) { (7 - dy) as u8 } else { dy };
            let tile = (s.tile_index_byte + self.sprite_base()) as u16;
            match self.pattern_pixel(self.sprite_base(), tile, fx, fy) {
                Some(pc) => if pc == 0 {
                    Some((false, zh2, color))
                } else {
                    match self.vram.peek((0x3f00 + (s.attribute_byte % 4 + 4) * 4 + pc) as u16) {
                        Some(pi) => Some((true, zh2, spec_color(pi % 64))),
                        None => None,
                    }
                },
                None => None,
            }
        }
    }

    /// The sprite 0 flag of a step only adds to the flag given.
    pub proof fn lemma_sprite_step_zh(self, idx: u8, x: u8, zh: bool, color: Rgb)
        ensures
            (self.sprite_step(idx, x, zh, color) is Some) == (self.sprite_step(idx, x, false, color) is Some),
            self.sprite_step(idx, x, false, color) is Some ==> ({
                let (c, zh1, col) = self.sprite_step(idx, x, false, color).unwrap();
                self.sprite_step(idx, x, zh, color) == Some((c, zh || zh1, col))
            }),
    {
        reveal(PpuView::sprite_step);
    }

    /// A step does not read the status register.
    pub proof fn lemma_sprite_step_status(self, other: PpuView, idx: u8, x: u8, zh: bool, color: Rgb)
        requires
            other == (PpuView { regs: Regs { status: other.regs.status, ..self.regs }, screen: other.screen, ..self }),
        ensures
            other.sprite_step(idx, x, zh, color) == self.sprite_step(idx, x, zh, color),
    {
        reveal(PpuView::sprite_step);
    }

    /// The sprite pass does not read the status register.
    pub proof fn lemma_sprite_pass_status(self, other: PpuView, vis: Seq<u8>, k: int, x: u8, zh: bool, color: Rgb)
        requires
            other == (PpuView { regs: Regs { status: other.regs.status, ..self.regs }, screen: other.screen, ..self }),
        ensures
            other.sprite_pass(vis, k, x, zh, color) == self.sprite_pass(vis, k, x, zh, color),
        decreases vis.len() - k,
    {
        if 0 <= k < vis.len() {
            self.lemma_sprite_step_status(other, vis[k], x, zh, color);
            match self.sprite_step(vis[k], x, zh, color) {
                Some((cont, zh2, c2)) => {
                    self.lemma_sprite_pass_status(other, vis, k + 1, x, zh2, c2);
                },
                None => {},
            }
        }
    }

    /// The scan for visible sprites does not read the status register.
    pub proof fn lemma_visible_status(self, other: PpuView, i: int, found: Seq<u8>)
        requires
            other == (PpuView { regs: Regs { status: other.regs.status, ..self.regs }, screen: other.screen, ..self }),
        ensures
            other.visible_from(i, found) == self.visible_from(i, found),
        decreases 64 - i,
    {
        if i < 64 {
            self.lemma_visible_status(other, i + 1, found);
            self.lemma_visible_status(other, i + 1, found.push(i as u8));
        }
    }

    /// The sprites that the scan finds are sprites of OAM, at most eight of them.
    pub proof fn lemma_visible_bounds(self, i: int, found: Seq<u8>)
        requires
            0 <= i,
            found.len() <= 8,
            forall|j: int| 0 <= j < found.len() ==> found[j] < 64,
        ensures
            self.visible_from(i, found).0.len() <= 8,
            forall|j: int| 0 <= j < self.visible_from(i, found).0.len() ==> self.visible_from(i, found).0[j] < 64,
        decreases 64 - i,
    {
        if i < 64 {
            self.lemma_visible_bounds(i + 1, found);
            if found.len() < 8 {
                self.lemma_visible_bounds(i + 1, found.push(i as u8));
            }
        }
    }

    /// The visible sprites from the `k`th on, drawn over `color` at column `x`: each opaque
    /// sprite pixel replaces the colour, and the boolean tells that sprite 0 was met.
    pub open spec fn sprite_pass(self, vis: Seq<u8>, k: int, x: u8, zh: bool, color: Rgb) -> Option<
        (bool, Rgb),
    >
        decreases vis.len() - k,
    {
        if k < 0 || k >= vis.len() {
            Some((zh, color))
        } else {
            match self.sprite_step(vis[k], x, zh, color) {
                Some((cont, zh2, c2)) => if cont {
                    self.sprite_pass(vis, k + 1, x, zh2, c2)
                } else {
                    Some((zh2, c2))
                },
                None => None,
            }
        }
    }

    /// The background pixel does not read the status register.
    pub proof fn lemma_background_status(self, other: PpuView, x: u8)
        requires
            other == (PpuView { regs: Regs { status: other.regs.status, ..self.regs }, screen: other.screen, ..self }),
        ensures
            other.background_pixel(x) == self.background_pixel(x),
    {
        reveal(PpuView::background_pixel);
    }

    /// The pixel at column `x` of the current scanline, with whether sprite 0 was met.
    #[verifier::opaque]
    pub open spec fn pixel(self, vis: Seq<u8>, x: u8) -> Option<(bool, Rgb)> {
        let black = Rgb { r: 0, g: 0, b: 0 };
        let bg = if bit(self.regs.mask.0, 3) { self.background_pixel(x) } else { Some(None) };
        match bg {
            Some(c) => {
                let c0 = match c {
                    Some(col) => col,
                    None => black,
                };
                if bit(self.regs.mask.0, 4) {
                    self.sprite_pass(vis, 0, x, false, c0)
                } else {
                    Some((false, c0))
                }
            },
            None => None,
        }
    }

    /// The screen with the first `n` pixels of the current scanline drawn.
    pub open spec fn drawn_row(self, vis: Seq<u8>, n: int) -> Seq<u8> {
        let y = self.scanline as int;
        Seq::new(
            self.screen.len(),
            |i: int|
                if y * 768 <= i < y * 768 + 3 * n {
                    component(self.pixel(vis, ((i - y * 768) / 3) as u8).unwrap().1, i % 3)
                } else {
                    self.screen[i]
                },
        )
    }

    /// Whether sprite 0 is met at some of the first `n` pixels of the scanline.
    pub open spec fn zero_hit_upto(self, vis: Seq<u8>, n: int) -> bool {
        exists|x: int| 0 <= x < n && #[trigger] self.pixel(vis, x as u8).unwrap().0
    }

    /// Renders the current scanline: finds the visible sprites (setting the overflow flag when
    /// there are more than eight), draws the 256 pixels, and sets the sprite 0 hit flag when
    /// sprite 0 was met.
    #[verifier::opaque]
    pub open spec fn spec_render(self) -> Option<PpuView> {
        let (vis, ovf) = self.visible();
        let status0 = if ovf { with_bit(self.regs.status.0, 0x20, true) } else { self.regs.status.0 };
        if forall|x: int| 0 <= x < 256 ==> (#[trigger] self.pixel(vis, x as u8)) is Some {
            let status = if self.zero_hit_upto(vis, 256) { with_bit(status0, 0x40, true) } else {
                status0
            };
            Some(PpuView {
                regs: Regs { status: PpuStatus(status), ..self.regs },
                screen: self.drawn_row(vis, 256),
                ..self
            })
        } else {
            None
        }
    }
}

impl Ppu {
    /// Reads PPUDATA: the byte at the VRAM address, which then advances by the increment.
    pub open spec fn spec_read_ppudata(self) -> Option<(Ppu, u8)> {
        match self.vram.load_spec(self.regs.addr) {
            Some((v, val)) => Some((
                Ppu {
                    vram: v,
                    regs: Regs { addr: wrap16(self.regs.addr + self@.addr_increment()), ..self.regs },
                    ..self
                },
                val,
            )),
            None => None,
        }
    }

    pub fn new(vram: Vram, oam: Oam) -> (p: Ppu)
        ensures
            p.regs == (Regs {
                ctrl: PpuCtrl(0),
                mask: PpuMask(0),
                status: PpuStatus(0),
                oam_addr: 0,
                scroll: PpuScroll { x: 0, y: 0, next: PpuScrollDir::XDir },
                addr: 0,
            }),
            p.vram == vram,
            p.oam == oam,
            p.screen@.len() == SCREEN_SIZE,
            forall|i: int| 0 <= i < SCREEN_SIZE ==> p.screen@[i] == 0,
            p.scanline == 0,
            p.cy == 0,
            p@.wf(),
    {
        Ppu {
            regs: Regs {
                ctrl: PpuCtrl(0),
                mask: PpuMask(0),
                status: PpuStatus(0),
                oam_addr: 0,
                scroll: PpuScroll { x: 0, y: 0, next: PpuScrollDir::XDir },
                addr: 0,
            },
            vram: vram,
            oam: oam,
            screen: vec![0u8; SCREEN_SIZE],
            scanline: 0,
            cy: 0,
        }
    }

    //
    // Color utilities
    //
    #[inline(always)]
    fn get_color(&self, palette_index: u8) -> (c: Rgb)
        requires
            palette_index < 64,
        ensures
            c == spec_color(palette_index),
    {
        Rgb {
            r: PALETTE[(palette_index * 3 + 2) as usize],
            g: PALETTE[(palette_index * 3 + 1) as usize],
            b: PALETTE[(palette_index * 3 + 0) as usize],
        }
    }

    //
    // Register manipulation
    //
    fn update_ppuscroll(&mut self, val: u8)
        ensures
            old(self).store_spec(0x2005, val) == Some(*final(self)),
    {
        match self.regs.scroll.next {
            PpuScrollDir::XDir => {
                self.regs.scroll.x = val;
                self.regs.scroll.next = PpuScrollDir::YDir;
            },
            PpuScrollDir::YDir => {
                self.regs.scroll.y = val;
                self.regs.scroll.next = PpuScrollDir::XDir;
            },
        }
    }

    fn write_oamdata(&mut self, val: u8)
        ensures
            old(self).store_spec(0x2004, val) == Some(*final(self)),
    {
        self.oam.storeb(self.regs.oam_addr as u16, val);
        self.regs.oam_addr = self.regs.oam_addr.wrapping_add(1);
    }

    fn update_ppuaddr(&mut self, val: u8)
        ensures
            old(self).store_spec(0x2006, val) == Some(*final(self)),
    {
        let a = self.regs.addr;
        assert(((a << 8u16) | (val as u16)) == (a % 256) * 256 + val) by (bit_vector);
        self.regs.addr = (self.regs.addr << 8u16) | (val as u16);
    }

    fn write_ppudata(&mut self, val: u8)
        ensures
            old(self).store_spec(0x2007, val) == Some(*final(self)),
    {
        self.vram.storeb(self.regs.addr, val);
        let inc = self.regs.ctrl.vram_addr_increment();
        self.regs.addr = self.regs.addr.wrapping_add(inc);
    }

    fn read_ppudata(&mut self) -> (val: u8)
        requires
            old(self).spec_read_ppudata() is Some,
        ensures
            old(self).spec_read_ppudata() == Some((*final(self), val)),
    {
        let val = self.vram.loadb(self.regs.addr);
        let inc = self.regs.ctrl.vram_addr_increment();
        self.regs.addr = self.regs.addr.wrapping_add(inc);
        val
    }
}

/// The PPU registers as the CPU sees them, mirrored every 8 bytes from $2000.
impl Mem for Ppu {
    /// PPUCTRL, PPUMASK and PPUSTATUS read back; OAMADDR, PPUSCROLL and PPUADDR read as 0;
    /// PPUDATA reads VRAM; reading OAMDATA is not supported.
    open spec fn load_spec(&self, addr: u16) -> Option<(Self, u8)> {
        let k = addr % 8;
        if k == 0 {
            Some((*self, self.regs.ctrl.0))
        } else if k == 1 {
            Some((*self, self.regs.mask.0))
        } else if k == 2 {
            Some((*self, self.regs.status.0))
        } else if k == 4 {
            None
        } else if k == 7 {
            self.spec_read_ppudata()
        } else {
            Some((*self, 0))
        }
    }

    open spec fn store_spec(&self, addr: u16, val: u8) -> Option<Self> {
        let r = self.regs;
        let k = addr % 8;
        if k == 0 {
            Some(Ppu { regs: Regs { ctrl: PpuCtrl(val), ..r }, ..*self })
        } else if k == 1 {
            Some(Ppu { regs: Regs { mask: PpuMask(val), ..r }, ..*self })
        } else if k == 2 {
            // PPUSTATUS is read-only
            Some(*self)
        } else if k == 3 {
            Some(Ppu { regs: Regs { oam_addr: val, ..r }, ..*self })
        } else if k == 4 {
            match self.oam.store_spec(r.oam_addr as u16, val) {
                Some(o) => Some(Ppu { oam: o, regs: Regs { oam_addr: wrap8(r.oam_addr + 1), ..r }, ..*self }),
                None => None,
            }
        } else if k == 5 {
            // The first write sets X, the second Y.
            Some(Ppu {
                regs: Regs {
                    scroll: match r.scroll.next {
                        PpuScrollDir::XDir => PpuScroll { x: val, next: PpuScrollDir::YDir, ..r.scroll },
                        PpuScrollDir::YDir => PpuScroll { y: val, next: PpuScrollDir::XDir, ..r.scroll },
                    },
                    ..r
                },
                ..*self
            })
        } else if k == 6 {
            // The address shifts in a byte at a time, high byte first.
            Some(Ppu { regs: Regs { addr: ((r.addr % 256) * 256 + val) as u16, ..r }, ..*self })
        } else {
            match self.vram.store_spec(r.addr, val) {
                Some(v) => Some(Ppu {
                    vram: v,
                    regs: Regs { addr: wrap16(r.addr + self@.addr_increment()), ..r },
                    ..*self
                }),
                None => None,
            }
        }
    }

    /// Performs a load of the PPU register at the given CPU address.
    fn loadb(&mut self, addr: u16) -> (val: u8) {
        let a = addr;
        proof { crate::bits::lemma_word(a); }
        match addr & 7 {
            0 => self.regs.ctrl.0,
            1 => self.regs.mask.0,
            2 => self.regs.status.0,
            7 => self.read_ppudata(),
            // OAMADDR, PPUSCROLL and PPUADDR are write-only
            _ => 0,
        }
    }

    /// Performs a store to the PPU register at the given CPU address.
    fn storeb(&mut self, addr: u16, val: u8) {
        let a = addr;
        proof { crate::bits::lemma_word(a); }
        match addr & 7 {
            0 => self.regs.ctrl = PpuCtrl(val),
            1 => self.regs.mask = PpuMask(val),
            2 => {},  // PPUSTATUS is read-only
            3 => self.regs.oam_addr = val,
            4 => self.write_oamdata(val),
            5 => self.update_ppuscroll(val),
            6 => self.update_ppuaddr(val),
            _ => self.write_ppudata(val),
        }
    }
}

/// The array of visible sprites that `compute_visible_sprites` returns for the sprites `vis`.
pub open spec fn visible_array(a: [Option<u8>; 8], vis: Seq<u8>) -> bool {
    vis.len() <= 8 && forall|k: int|
        0 <= k < 8 ==> #[trigger] a@[k] == (if k < vis.len() { Some(vis[k]) } else { None::<u8> })
}

proof fn lemma_with_bit_twice(v: u8, mask: u8)
    ensures
        with_bit(with_bit(v, mask, true), mask, true) == with_bit(v, mask, true),
{
    assert((v | mask) | mask == v | mask) by (bit_vector);
}

impl PpuView {
    /// One scanline: renders it when visible, then moves to the next one.  Scanline 241
    /// starts VBLANK (the boolean tells whether an NMI is due); scanline 261 ends the frame.
    pub open spec fn scanline_step(self) -> Option<(PpuView, bool, bool)> {
        let p1 = if self.scanline < 240 { self.spec_render() } else { Some(self) };
        match p1 {
            Some(p) => {
                let sl = p.scanline + 1;
                if sl == 241 {
                    let st = with_bit(with_bit(p.regs.status.0, 0x80, true), 0x40, false);
                    Some((
                        PpuView { scanline: 241, regs: Regs { status: PpuStatus(st), ..p.regs }, ..p },
                        bit(p.regs.ctrl.0, 7),
                        false,
                    ))
                } else if sl == 261 {
                    let st = with_bit(p.regs.status.0, 0x80, false);
                    Some((
                        PpuView { scanline: 0, regs: Regs { status: PpuStatus(st), ..p.regs }, ..p },
                        false,
                        true,
                    ))
                } else {
                    Some((PpuView { scanline: sl as u16, ..p }, false, false))
                }
            },
            None => None,
        }
    }

    /// Runs whole scanlines of 124 cycles while they end by `run_to`.
    pub open spec fn spec_step(self, run_to: u64) -> Option<(PpuView, StepResult)>
        decreases run_to - self.cy,
    {
        if self.cy + CYCLES_PER_SCANLINE > u64::MAX {
            None
        } else if self.cy + CYCLES_PER_SCANLINE > run_to {
            Some((self, StepResult { new_frame: false, vblank_nmi: false }))
        } else {
            match self.scanline_step() {
                Some((p, nmi, frame)) => match (PpuView {
                    cy: (self.cy + CYCLES_PER_SCANLINE) as u64,
                    ..p
                }).spec_step(run_to) {
                    Some((q, r)) => Some((
                        q,
                        StepResult {
                            new_frame: frame || r.new_frame,
                            vblank_nmi: nmi || r.vblank_nmi,
                        },
                    )),
                    None => None,
                },
                None => None,
            }
        }
    }
}

impl Ppu {
    //
    // Sprites
    //
    #[inline(always)]
    fn make_sprite_info(&mut self, index: u16) -> (s: Sprite)
        requires
            index < 64,
        ensures
            s == old(self)@.sprite_at(index as int),
            *final(self) == *old(self),
    {
        Sprite {
            y: self.oam.loadb(index * 4 + 0),
            tile_index_byte: self.oam.loadb(index * 4 + 1),
            attribute_byte: self.oam.loadb(index * 4 + 2),
            x: self.oam.loadb(index * 4 + 3),
        }
    }

    //
    // Rendering
    //
    #[inline(always)]
    fn putpixel(&mut self, x: usize, y: usize, color: Rgb)
        requires
            x < 256,
            y < 240,
            old(self).screen@.len() == SCREEN_SIZE,
        ensures
            final(self)@ == (PpuView {
                screen: old(self).screen@.update((y * 256 + x) * 3, color.r).update(
                    (y * 256 + x) * 3 + 1,
                    color.g,
                ).update((y * 256 + x) * 3 + 2, color.b),
                ..old(self)@
            }),
    {
        self.screen.set((y * SCREEN_WIDTH + x) * 3 + 0, color.r);
        self.screen.set((y * SCREEN_WIDTH + x) * 3 + 1, color.g);
        self.screen.set((y * SCREEN_WIDTH + x) * 3 + 2, color.b);
    }

    /// Returns the color (pre-palette lookup) of pixel (x,y) within the given tile.
    #[inline(always)]
    fn get_pattern_pixel(&mut self, kind: PatternPixelKind, tile: u16, x: u8, y: u8) -> (c: u8)
        requires
            old(self)@.pattern_pixel(
                if kind == PatternPixelKind::Background { old(self)@.background_base() } else {
                    old(self)@.sprite_base()
                },
                tile,
                x,
                y,
            ) is Some,
        ensures
            *final(self) == *old(self),
            old(self)@.pattern_pixel(
                if kind == PatternPixelKind::Background { old(self)@.background_base() } else {
                    old(self)@.sprite_base()
                },
                tile,
                x,
                y,
            ) == Some(c),
            c < 4,
    {
        // Compute the pattern offset.
        assert((tile << 4u16) == wrap16(tile * 16)) by (bit_vector);
        let mut pattern_offset = (tile << 4u16).wrapping_add(y as u16);
        match kind {
            PatternPixelKind::Background => {
                let base = self.regs.ctrl.background_pattern_table_addr();
                pattern_offset = pattern_offset.wrapping_add(base);
            },
            PatternPixelKind::Sprite => {
                let base = self.regs.ctrl.sprite_pattern_table_addr();
                pattern_offset = pattern_offset.wrapping_add(base);
            },
        }
        // Determine the color of this pixel.
        let plane0 = self.vram.loadb(pattern_offset);
        let plane1 = self.vram.loadb(pattern_offset.wrapping_add(8));
        let shift: u8 = 7 - (x % 8);
        let bit0 = (plane0 >> shift) & 1;
        let bit1 = (plane1 >> shift) & 1;
        assert(bit0 <= 1 && bit1 <= 1 && (bit1 << 1u8) | bit0 == 2 * bit1 + bit0) by (bit_vector)
            requires
                bit0 == (plane0 >> shift) & 1,
                bit1 == (plane1 >> shift) & 1,
        ;
        (bit1 << 1u8) | bit0
    }

    #[inline(always)]
    #[verifier::rlimit(40)]
    fn get_background_pixel(&mut self, x: u8, color: &mut Rgb)
        requires
            old(self).scanline < 240,
            old(self)@.background_pixel(x) is Some,
        ensures
            *final(self) == *old(self),
            *final(color) == match old(self)@.background_pixel(x).unwrap() {
                Some(c) => c,
                None => *old(color),
            },
    {
        reveal(PpuView::background_pixel);
        // Compute the tile index and the pixel offset within that tile.
        let (x_index, y_index) = (x as u16 / 8, self.scanline / 8);
        let (xsub, ysub) = (x % 8, (self.scanline % 8) as u8);

        // Compute the nametable address and load the tile number from the nametable.
        let tile_offset = 32 * y_index + x_index;
        let t = self.vram.loadb(0x2000 + tile_offset);
        let tile = t as u16;
        let ghost view = old(self)@;
        assert(view.vram.peek((0x2000 + 32 * (view.scanline / 8) + x / 8) as u16) == Some(t));

        // Fetch the pattern color.
        let pattern_color = self.get_pattern_pixel(PatternPixelKind::Background, tile, xsub, ysub);
        if pattern_color == 0 {
            return;  // Transparent.
        }

        // Now load the attribute bits from the attribute table.
        let group = y_index / 4 * 8 + x_index / 4;
        let attr_byte = self.vram.loadb(0x23c0 + group);
        let (left, top) = (x_index % 4 < 2, y_index % 4 < 2);
        assert(attr_byte & 0x3 == attr_byte % 4 && (attr_byte >> 2u8) & 0x3 == (attr_byte / 4)
            % 4 && (attr_byte >> 4u8) & 0x3 == (attr_byte / 16) % 4 && (attr_byte >> 6u8) & 0x3
            == (attr_byte / 64) % 4) by (bit_vector);
        assert(attr_byte as int / 1 == attr_byte && attr_byte as int / 4 == attr_byte / 4
            && attr_byte as int / 16 == attr_byte / 16 && attr_byte as int / 64 == attr_byte / 64);
        let attr_table_color = if left && top {
            attr_byte & 0x3
        } else if !left && top {
            (attr_byte >> 2u8) & 0x3
        } else if left && !top {
            (attr_byte >> 4u8) & 0x3
        } else {
            (attr_byte >> 6u8) & 0x3
        };

        // Determine the final color and fetch the palette from VRAM.
        assert((attr_table_color << 2u8) | pattern_color == attr_table_color * 4 + pattern_color)
            by (bit_vector)
            requires
                attr_table_color < 4,
                pattern_color < 4,
        ;
        let tile_color = (attr_table_color << 2u8) | pattern_color;
        let pi = self.vram.loadb(0x3f00 + (tile_color as u16));
        assert(pi & 0x3f == pi % 64) by (bit_vector);
        let palette_index = pi & 0x3f;
        proof {
            let shift = if x_index % 4 < 2 { 1int } else { 4 } * if y_index % 4 < 2 { 1int } else { 16 };
            assert(attr_table_color == (attr_byte as int / shift) % 4);
            assert(view.vram.peek((0x23c0 + y_index / 4 * 8 + x_index / 4) as u16) == Some(attr_byte));
            assert(view.vram.peek((0x3f00 + attr_table_color * 4 + pattern_color) as u16) == Some(pi));
        }
        *color = self.get_color(palette_index);
    }

    /// Draws sprite `index` at column `x` over `color`; returns whether the pass goes on.
    #[verifier::rlimit(40)]
    fn draw_sprite_pixel(&mut self, index: u8, x: u8, color: &mut Rgb) -> (cont: bool)
        requires
            old(self).scanline < 240,
            index < 64,
            old(self)@.sprite_step(index, x, false, *old(color)) is Some,
        ensures
            ({
                let (c, zh, col) = old(self)@.sprite_step(index, x, false, *old(color)).unwrap();
                &&& cont == c
                &&& *final(color) == col
                &&& final(self)@ == (PpuView {
                    regs: Regs {
                        status: PpuStatus(if zh { with_bit(old(self).regs.status.0, 0x40, true) } else { old(self).regs.status.0 }),
                        ..old(self).regs
                    },
                    ..old(self)@
                })
            }),
    {
        reveal(PpuView::sprite_step);
        let ghost view = old(self)@;
        let sprite = self.make_sprite_info(index as u16);

        // Don't need to consider this sprite if we aren't in its bounding box.
        if !sprite.in_bounding_box(self, x, self.scanline as u8) {
            return true;
        }
        if index == 0 {
            self.regs.status.set_sprite_zero_hit(true);
        }
        let pattern_color;
        match sprite.tiles(self) {
            SpriteTiles::SpriteTiles8x8(tile) => {
                let mut x = x - sprite.x;
                if sprite.flip_horizontal() {
                    x = 7 - x;
                }
                let mut y = self.scanline as u8 - sprite.y;
                if sprite.flip_vertical() {
                    y = 7 - y;
                }
                pattern_color = self.get_pattern_pixel(PatternPixelKind::Sprite, tile, x, y);
            },
            SpriteTiles::SpriteTiles8x16(_, _) => {
                // 8x16 sprite rendering is unimplemented; the contract leaves it out.
                return false;
            },
        }

        // If the pattern color was zero, this part of the sprite is transparent.
        if pattern_color == 0 {
            return false;
        }

        // Determine final tile color and do the palette lookup.
        let pal = sprite.palette();
        assert((pal << 2u8) | pattern_color == pal * 4 + pattern_color) by (bit_vector)
            requires
                4 <= pal < 8,
                pattern_color < 4,
        ;
        let tile_color = (pal << 2u8) | pattern_color;
        let pi = self.vram.loadb(0x3f00 + (tile_color as u16));
        assert(pi & 0x3f == pi % 64) by (bit_vector);
        let palette_index = pi & 0x3f;
        *color = self.get_color(palette_index);
        true
    }

    #[inline(always)]
    fn get_sprite_pixel(&mut self, visible_sprites: &[Option<u8>; 8], x: u8, color: &mut Rgb)
        requires
            old(self).scanline < 240,
            visible_array(*visible_sprites, old(self)@.visible().0),
            forall|k: int| 0 <= k < old(self)@.visible().0.len() ==> old(self)@.visible().0[k] < 64,
            old(self)@.sprite_pass(old(self)@.visible().0, 0, x, false, *old(color)) is Some,
        ensures
            ({
                let (zh, c) = old(self)@.sprite_pass(old(self)@.visible().0, 0, x, false, *old(color)).unwrap();
                &&& *final(color) == c
                &&& final(self)@ == (PpuView {
                    regs: Regs {
                        status: PpuStatus(if zh { with_bit(old(self).regs.status.0, 0x40, true) } else { old(self).regs.status.0 }),
                        ..old(self).regs
                    },
                    ..old(self)@
                })
            }),
    {
        let ghost view = old(self)@;
        let ghost vis = view.visible().0;
        let ghost c_init = *old(color);
        let ghost target = view.sprite_pass(vis, 0, x, false, c_init);
        let ghost mut zh = false;
        let mut k: usize = 0;
        while k < 8
            invariant
                view == old(self)@,
                c_init == *old(color),
                target == view.sprite_pass(vis, 0, x, false, c_init),
                vis == view.visible().0,
                self.scanline < 240,
                visible_array(*visible_sprites, vis),
                forall|j: int| 0 <= j < vis.len() ==> vis[j] < 64,
                k <= vis.len(),
                target == view.sprite_pass(vis, k as int, x, zh, *color),
                target is Some,
                self@ == (PpuView {
                    regs: Regs {
                        status: PpuStatus(if zh { with_bit(view.regs.status.0, 0x40, true) } else { view.regs.status.0 }),
                        ..view.regs
                    },
                    ..view
                }),
            decreases 8 - k,
        {
            match visible_sprites[k] {
                None => {
                    assert(k == vis.len());
                    assert(target == Some((zh, *color)));
                    return;
                },
                Some(index) => {
                    assert(vis[k as int] == index);
                    let ghost before = self@;
                    let ghost c0 = *color;
                    let ghost zh0 = zh;
                    proof {
                        view.lemma_sprite_step_status(before, index, x, false, c0);
                        view.lemma_sprite_step_zh(index, x, zh0, c0);
                    }
                    let cont = self.draw_sprite_pixel(index, x, color);
                    proof {
                        let (c, zh1, col) = view.sprite_step(index, x, false, c0).unwrap();
                        if zh1 {
                            lemma_with_bit_twice(view.regs.status.0, 0x40);
                        }
                        zh = zh || zh1;
                    }
                    assert(view.sprite_pass(vis, k as int, x, zh0, c0) == match view.sprite_step(
                        index,
                        x,
                        zh0,
                        c0,
                    ) {
                        Some((cont, zh2, c2)) => if cont {
                            view.sprite_pass(vis, k + 1, x, zh2, c2)
                        } else {
                            Some((zh2, c2))
                        },
                        None => None,
                    });
                    if !cont {
                        return;
                    }
                },
            }
            k = k + 1;
        }
    }

    fn compute_visible_sprites(&mut self) -> (result: [Option<u8>; 8])
        ensures
            visible_array(result, old(self)@.visible().0),
            forall|k: int| 0 <= k < old(self)@.visible().0.len() ==> old(self)@.visible().0[k] < 64,
            final(self)@ == (if old(self)@.visible().1 {
                PpuView {
                    regs: Regs { status: PpuStatus(with_bit(old(self).regs.status.0, 0x20, true)), ..old(self).regs },
                    ..old(self)@
                }
            } else {
                old(self)@
            }),
    {
        let ghost view = old(self)@;
        proof {
            view.lemma_visible_bounds(0, Seq::empty());
        }
        let ghost mut found: Seq<u8> = Seq::empty();
        let mut count: usize = 0;
        let mut result: [Option<u8>; 8] = [None; 8];
        let mut i: u16 = 0;
        while i < 64
            invariant
                view == old(self)@,
                self@ == view,
                i <= 64,
                count == found.len(),
                count <= 8,
                forall|j: int| 0 <= j < found.len() ==> found[j] < 64,
                forall|k: int| 0 <= k < 8 ==> #[trigger] result@[k] == (if k < found.len() { Some(found[k]) } else { None::<u8> }),
                view.visible() == view.visible_from(i as int, found),
                view.visible().0.len() <= 8,
                forall|j: int| 0 <= j < view.visible().0.len() ==> view.visible().0[j] < 64,
            decreases 64 - i,
        {
            let sprite = self.make_sprite_info(i);
            if sprite.on_scanline(self, self.scanline as u8) {
                if count < 8 {
                    result[count] = Some(i as u8);
                    count = count + 1;
                    proof {
                        found = found.push(i as u8);
                    }
                } else {
                    self.regs.status.set_sprite_overflow(true);
                    return result;
                }
            }
            i = i + 1;
        }
        result
    }

    #[verifier::rlimit(60)]
    fn render_scanline(&mut self)
        requires
            old(self).scanline < 240,
            old(self)@.wf(),
            old(self)@.spec_render() is Some,
        ensures
            final(self)@ == old(self)@.spec_render().unwrap(),
            final(self).scanline == old(self).scanline,
            final(self).cy == old(self).cy,
            final(self)@.wf(),
    {
        let ghost view = old(self)@;
        let ghost vis = view.visible().0;
        reveal(PpuView::spec_render);
        // TODO: Scrolling, mirroring
        let visible_sprites = self.compute_visible_sprites();
        let ghost p0 = self@;
        let ghost status0 = self.regs.status.0;
        assert(view.drawn_row(vis, 0) =~= view.screen);
        let mut x: usize = 0;
        while x < SCREEN_WIDTH
            invariant
                view == old(self)@,
                vis == view.visible().0,
                view.wf(),
                view.scanline < 240,
                visible_array(visible_sprites, vis),
                forall|k: int| 0 <= k < vis.len() ==> vis[k] < 64,
                forall|j: int| 0 <= j < 256 ==> (#[trigger] view.pixel(vis, j as u8)) is Some,
                p0 == (PpuView { regs: Regs { status: PpuStatus(status0), ..view.regs }, ..view }),
                x <= 256,
                self@ == (PpuView {
                    regs: Regs {
                        status: PpuStatus(if view.zero_hit_upto(vis, x as int) { with_bit(status0, 0x40, true) } else { status0 }),
                        ..view.regs
                    },
                    screen: view.drawn_row(vis, x as int),
                    ..view
                }),
            decreases 256 - x,
        {
            // FIXME: For performance, we shouldn't be recomputing the tile for every pixel.
            // FIXME: Use universal background color from palette.
            let ghost cur = self@;
            proof {
                reveal(PpuView::pixel);
                view.lemma_visible_status(cur, 0, Seq::empty());
                view.lemma_background_status(cur, x as u8);
                view.lemma_sprite_pass_status(cur, vis, 0, x as u8, false, Rgb { r: 0, g: 0, b: 0 });
                assert(view.pixel(vis, x as u8) is Some);
            }
            let mut color = Rgb { r: 0, g: 0, b: 0 };
            if self.regs.mask.show_background() {
                self.get_background_pixel(x as u8, &mut color);
            }
            let ghost c0 = color;
            proof {
                view.lemma_sprite_pass_status(cur, vis, 0, x as u8, false, c0);
            }
            if self.regs.mask.show_sprites() {
                self.get_sprite_pixel(&visible_sprites, x as u8, &mut color);
            }
            let ghost (zh, c) = view.pixel(vis, x as u8).unwrap();
            assert(color == c) by {
                reveal(PpuView::pixel);
            }
            proof {
                if zh {
                    lemma_with_bit_twice(status0, 0x40);
                }
                assert(view.zero_hit_upto(vis, x + 1) == (view.zero_hit_upto(vis, x as int) || zh)) by {
                    if zh {
                        assert(view.pixel(vis, x as u8).unwrap().0);
                    }
                    if view.zero_hit_upto(vis, x + 1) && !zh {
                        let w = choose|w: int| 0 <= w < x + 1 && #[trigger] view.pixel(vis, w as u8).unwrap().0;
                        assert(w != x);
                    }
                }
            }
            self.putpixel(x, self.scanline as usize, color);
            assert(self.screen@ =~= view.drawn_row(vis, x + 1));
            x = x + 1;
        }
    }

    fn start_vblank(&mut self, result: &mut StepResult)
        ensures
            final(self)@ == (PpuView {
                regs: Regs {
                    status: PpuStatus(with_bit(with_bit(old(self).regs.status.0, 0x80, true), 0x40, false)),
                    ..old(self).regs
                },
                ..old(self)@
            }),
            *final(result) == (StepResult {
                vblank_nmi: old(result).vblank_nmi || bit(old(self).regs.ctrl.0, 7),
                ..*old(result)
            }),
    {
        self.regs.status.set_in_vblank(true);

        // FIXME: Is this correct? Or does it happen on the *next* frame?
        self.regs.status.set_sprite_zero_hit(false);

        if self.regs.ctrl.vblank_nmi() {
            result.vblank_nmi = true;
        }
    }

    #[inline(never)]
    pub fn step(&mut self, run_to_cycle: u64) -> (r: StepResult)
        requires
            old(self)@.wf(),
            old(self)@.spec_step(run_to_cycle) is Some,
        ensures
            old(self)@.spec_step(run_to_cycle) == Some((final(self)@, r)),
            final(self)@.wf(),
    {
        let ghost target = old(self)@.spec_step(run_to_cycle);
        let mut result = StepResult { new_frame: false, vblank_nmi: false };
        loop
            invariant
                self@.wf(),
                target == old(self)@.spec_step(run_to_cycle),
                target is Some,
                self@.spec_step(run_to_cycle) is Some,
                ({
                    let (p, r2) = self@.spec_step(run_to_cycle).unwrap();
                    target == Some((p, StepResult {
                        new_frame: result.new_frame || r2.new_frame,
                        vblank_nmi: result.vblank_nmi || r2.vblank_nmi,
                    }))
                }),
            ensures
                self@.wf(),
                target == Some((self@, result)),
            decreases run_to_cycle - self.cy,
        {
            let ghost before = self@;
            let ghost before_result = result;
            let next_scanline_cycle: u64 = self.cy + CYCLES_PER_SCANLINE;
            if next_scanline_cycle > run_to_cycle {
                assert(self@.spec_step(run_to_cycle) == Some((self@, StepResult { new_frame: false, vblank_nmi: false })));
                break;
            }
            if self.scanline < (SCREEN_HEIGHT as u16) {
                self.render_scanline();
            }
            self.scanline = self.scanline + 1;
            if self.scanline == (VBLANK_SCANLINE as u16) {
                self.start_vblank(&mut result);
            } else if self.scanline == (LAST_SCANLINE as u16) {
                result.new_frame = true;
                self.scanline = 0;
                self.regs.status.set_in_vblank(false);
            }
            self.cy = self.cy + CYCLES_PER_SCANLINE;
            proof {
                let (p, nmi, frame) = before.scanline_step().unwrap();
                assert(self@ == (PpuView { cy: (before.cy + CYCLES_PER_SCANLINE) as u64, ..p }));
                assert(result.new_frame == (before_result.new_frame || frame));
                assert(result.vblank_nmi == (before_result.vblank_nmi || nmi));
            }
        }
        result
    }
}


//
// Laws of the PPU's memory ports
//

/// Writing a VRAM address to PPUADDR ($2006, high byte first) and then a byte to PPUDATA
/// ($2007) puts the byte at that address of the nametables or the palette, where a read of
/// VRAM finds it, and moves the address on by 1, or by 32 when PPUCTRL asks for vertical
/// increments.  (Below $2000 the byte goes to the cartridge's CHR memory instead.)
pub proof fn lemma_ppudata_write(p: Ppu, hi: u8, lo: u8, val: u8)
    requires
        0x2000 <= hi * 256 + lo < 0x4000,
    ensures
        ({
            let a = (hi * 256 + lo) as u16;
            let p1 = p.store_spec(0x2006, hi).unwrap();
            let p2 = p1.store_spec(0x2006, lo).unwrap();
            &&& p2.regs.addr == a
            &&& p2.store_spec(0x2007, val) matches Some(p3) && p3.vram.peek(a) == Some(val)
                && p3.regs.addr == wrap16(a + p@.addr_increment()) && p3.oam == p.oam
        }),
{
    let p1 = p.store_spec(0x2006, hi).unwrap();
    assert(p1.regs.addr % 256 == hi) by {
        assert(((p.regs.addr % 256) * 256 + hi) % 256 == hi) by (nonlinear_arith)
            requires hi < 256;
    }
}

/// Writing an index to OAMADDR ($2003) and then a byte to OAMDATA ($2004) puts the byte at
/// that index of OAM and moves OAMADDR to the next index (wrapping at 256).
pub proof fn lemma_oamdata_write(p: Ppu, index: u8, val: u8)
    ensures
        ({
            let p1 = p.store_spec(0x2003, index).unwrap();
            &&& p1.store_spec(0x2004, val) matches Some(p2) && p2.oam.oam@[index as int] == val
                && p2.regs.oam_addr == wrap8(index + 1) && p2.vram == p.vram
        }),
{
}

/// VRAM's mirrors: $3000-$3EFF repeats the nametables at $2000-$2EFF, and the 32 palette
/// bytes repeat through $3F00-$3FFF.
pub proof fn lemma_vram_mirrors(v: Vram, a: u16, b: u16)
    requires
        (0x2000 <= a < 0x2f00 && b == a + 0x1000) || (0x3f00 <= a < 0x4000 && 0x3f00 <= b < 0x4000
            && a % 0x20 == b % 0x20),
    ensures
        v.peek(a) == v.peek(b),
{
}


//
// Laws of the background attributes
//

/// The two attribute bits of a background tile: an attribute byte covers 4x4 tiles in four
/// 2x2 quadrants, top-left in bits 0-1, top-right in bits 2-3, bottom-left in bits 4-5 and
/// bottom-right in bits 6-7.
pub open spec fn attribute_bits(attr: u8, tile_column: int, tile_row: int) -> int {
    let q = (tile_column / 2) % 2 + 2 * ((tile_row / 2) % 2);
    if q == 0 {
        attr as int % 4
    } else if q == 1 {
        (attr as int / 4) % 4
    } else if q == 2 {
        (attr as int / 16) % 4
    } else {
        (attr as int / 64) % 4
    }
}

/// An opaque background pixel takes its colour from the background palette that the
/// attribute byte gives its tile's quadrant: palette entry $3F00 + 4 * attribute bits + the
/// pattern colour.
pub proof fn lemma_background_attribute(p: PpuView, x: u8)
    requires
        p.vram.peek((0x2000 + 32 * (p.scanline / 8) + x / 8) as u16) is Some,
    ensures
        ({
            let xi = x / 8;
            let yi = p.scanline / 8;
            let tile = p.vram.peek((0x2000 + 32 * yi + xi) as u16).unwrap();
            let attr_addr = (0x23c0 + yi / 4 * 8 + xi / 4) as u16;
            match p.pattern_pixel(p.background_base(), tile as u16, x % 8, (p.scanline % 8) as u8) {
                Some(pc) => pc != 0 && p.vram.peek(attr_addr) is Some ==> p.background_pixel(x)
                    == match p.vram.peek((0x3f00 + 4 * attribute_bits(p.vram.peek(attr_addr).unwrap(), xi as int, yi as int) + pc) as u16) {
                        Some(pi) => Some(Some(spec_color(pi % 64))),
                        None => None,
                    },
                None => true,
            }
        }),
{
    let xi = x / 8;
    let yi = p.scanline / 8;
    let tile = p.vram.peek((0x2000 + 32 * yi + xi) as u16).unwrap();
    let attr_addr = (0x23c0 + yi / 4 * 8 + xi / 4) as u16;
    if let Some(pc) = p.pattern_pixel(p.background_base(), tile as u16, x % 8, (p.scanline % 8) as u8) {
        if pc != 0 && p.vram.peek(attr_addr) is Some {
            let attr = p.vram.peek(attr_addr).unwrap();
            lemma_attribute_quadrant(attr, xi as int, yi as int);
            reveal(PpuView::background_pixel);
        }
    }
}

proof fn lemma_attribute_quadrant(attr: u8, xi: int, yi: int)
    requires
        0 <= xi,
        0 <= yi,
    ensures
        (attr as int / (if xi % 4 < 2 { 1int } else { 4 } * if yi % 4 < 2 { 1int } else { 16 })) % 4
            == attribute_bits(attr, xi, yi),
{
    let sx: int = if xi % 4 < 2 { 1int } else { 4 };
    let sy: int = if yi % 4 < 2 { 1int } else { 16 };
    assert((xi % 4 < 2) == ((xi / 2) % 2 == 0));
    assert((yi % 4 < 2) == ((yi / 2) % 2 == 0));
    assert((if xi % 4 < 2 { 1int } else { 4 } * if yi % 4 < 2 { 1int } else { 16 }) == sx * sy);
    if sx == 1 && sy == 1 {
        assert(sx * sy == 1);
    } else if sx == 4 && sy == 1 {
        assert(sx * sy == 4);
    } else if sx == 1 && sy == 16 {
        assert(sx * sy == 16);
    } else {
        assert(sx * sy == 64);
    }
}

} // verus!
