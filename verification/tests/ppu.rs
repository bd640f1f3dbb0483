use nes::cpu::Cpu;
use nes::mapper::create_mapper;
use nes::mem::{Mem, MemMap};
use nes::ppu::{Oam, Ppu, PpuCtrl, PpuMask, PpuStatus, SpriteSize, Vram};
use nes::rom::Rom;
use nes::apu::Apu;
use nes::input::Input;

fn nrom() -> Rom {
    let mut bytes = vec![0x4e, 0x45, 0x53, 0x1a, 1, 1, 0x00, 0x00, 0, 0, 0, 0, 0, 0, 0, 0];
    bytes.extend_from_slice(&vec![0u8; 16384]);
    let mut chr = vec![0u8; 8192];
    // Tile 0: the top row is colour 1 all along.
    chr[0x00] = 0xff;
    chr[0x10] = 0x77;
    bytes.extend_from_slice(&chr);
    Rom::from_bytes(&bytes).unwrap()
}

fn ppu() -> Ppu {
    Ppu::new(Vram::new(create_mapper(nrom())), Oam::new())
}

#[test]
fn ppuaddr_ppudata_write_and_read() {
    let mut p = ppu();
    p.storeb(0x2006, 0x21);
    p.storeb(0x2006, 0x08);
    p.storeb(0x2007, 0x5c);
    assert_eq!(p.regs.addr, 0x2109);
    assert_eq!(p.vram.nametables[0x108], 0x5c);
    p.storeb(0x2006, 0x21);
    p.storeb(0x2006, 0x08);
    assert_eq!(p.loadb(0x2007), 0x5c);
}

#[test]
fn ppudata_increment_by_32() {
    let mut p = ppu();
    p.storeb(0x2000, 0x04);
    p.storeb(0x2006, 0x20);
    p.storeb(0x2006, 0x00);
    p.storeb(0x2007, 1);
    p.storeb(0x2007, 2);
    assert_eq!(p.regs.addr, 0x2040);
    assert_eq!(p.vram.nametables[0x00], 1);
    assert_eq!(p.vram.nametables[0x20], 2);
}

#[test]
fn vram_mirrors() {
    let mut v = Vram::new(create_mapper(nrom()));
    v.storeb(0x2005, 9);
    assert_eq!(v.loadb(0x3005), 9);
    v.storeb(0x3f01, 0x2a);
    assert_eq!(v.loadb(0x3f21), 0x2a);
    assert_eq!(v.loadb(0x3fe1), 0x2a);
    assert_eq!(v.loadb(0x0010), 0x77);
}

#[test]
fn oamaddr_oamdata_write() {
    let mut p = ppu();
    p.storeb(0x2003, 0xff);
    p.storeb(0x2004, 0x11);
    p.storeb(0x2004, 0x22);
    assert_eq!(p.oam.oam[0xff], 0x11);
    assert_eq!(p.oam.oam[0x00], 0x22);
    assert_eq!(p.regs.oam_addr, 0x01);
}

#[test]
fn scroll_writes_alternate() {
    let mut p = ppu();
    p.storeb(0x2005, 7);
    p.storeb(0x2005, 9);
    assert_eq!(p.regs.scroll.x, 7);
    assert_eq!(p.regs.scroll.y, 9);
}

#[test]
fn ctrl_and_mask_bits() {
    let c = PpuCtrl(0xff);
    assert_eq!(c.base_nametable_addr(), 0x2c00);
    assert_eq!(c.vram_addr_increment(), 32);
    assert_eq!(c.sprite_pattern_table_addr(), 0x1000);
    assert_eq!(c.background_pattern_table_addr(), 0x1000);
    assert!(c.sprite_size() == SpriteSize::SpriteSize8x16);
    assert!(c.vblank_nmi());
    let c0 = PpuCtrl(0x00);
    assert_eq!(c0.base_nametable_addr(), 0x2000);
    assert_eq!(c0.vram_addr_increment(), 1);
    assert!(c0.sprite_size() == SpriteSize::SpriteSize8x8);
    assert!(!c0.vblank_nmi());
    let m = PpuMask(0x18);
    assert!(m.show_background());
    assert!(m.show_sprites());
    assert!(!m.grayscale());
    assert!(!m.intensify_reds());
}

#[test]
fn status_setters() {
    let mut s = PpuStatus(0);
    s.set_in_vblank(true);
    assert_eq!(s.0, 0x80);
    s.set_sprite_zero_hit(true);
    assert_eq!(s.0, 0xc0);
    s.set_sprite_overflow(true);
    assert_eq!(s.0, 0xe0);
    s.set_in_vblank(false);
    assert_eq!(s.0, 0x60);
}

#[test]
fn step_reaches_vblank_and_frame_end() {
    let mut p = ppu();
    p.storeb(0x2000, 0x80);
    // 241 scanlines of 124 cycles reach VBLANK.
    let r = p.step(124 * 240);
    assert!(!r.vblank_nmi);
    assert!(!r.new_frame);
    assert_eq!(p.scanline, 240);
    let r = p.step(124 * 241);
    assert!(r.vblank_nmi);
    assert!(p.regs.status.0 & 0x80 != 0);
    let r = p.step(124 * 261);
    assert!(r.new_frame);
    assert_eq!(p.scanline, 0);
    assert!(p.regs.status.0 & 0x80 == 0);
}

#[test]
fn step_short_of_a_scanline_does_nothing() {
    let mut p = ppu();
    let r = p.step(123);
    assert!(!r.new_frame && !r.vblank_nmi);
    assert_eq!(p.cy, 0);
    assert_eq!(p.scanline, 0);
}

#[test]
fn background_renders_palette_colour() {
    let mut p = ppu();
    // Colour 1 of background palette 0 is 0x21 (light blue); background shown.
    p.storeb(0x2006, 0x3f);
    p.storeb(0x2006, 0x01);
    p.storeb(0x2007, 0x21);
    p.storeb(0x2001, 0x08);
    p.step(124);
    assert_eq!(p.scanline, 1);
    // First pixel, three bytes; all pixels of the line have the same colour.
    let first = (p.screen[0], p.screen[1], p.screen[2]);
    let last = (p.screen[255 * 3], p.screen[255 * 3 + 1], p.screen[255 * 3 + 2]);
    assert!(first == last);
    assert!(first != (0, 0, 0));
}

#[test]
fn oam_dma_copies_a_page() {
    let ppu = ppu();
    let mut cpu = Cpu::new(MemMap::new(ppu, Input::new(), Apu::new()));
    for i in 0..256u16 {
        cpu.mem.ram.val[0x200 + i as usize] = i as u8;
    }
    cpu.storeb(0x4014, 0x02);
    assert_eq!(cpu.cy, 512);
    for i in 0..256usize {
        assert_eq!(cpu.mem.ppu.oam.oam[i], i as u8);
    }
}

#[test]
fn oam_dma_from_the_last_page() {
    let ppu = ppu();
    let mut cpu = Cpu::new(MemMap::new(ppu, Input::new(), Apu::new()));
    cpu.storeb(0x4014, 0xff);
    assert_eq!(cpu.cy, 512);
    // $FF00-$FFFF is the cartridge: with this all-zero PRG-ROM, OAM gets zeros; OAMADDR wrapped.
    assert_eq!(cpu.mem.ppu.regs.oam_addr, 0);
    assert!(cpu.mem.ppu.oam.oam.iter().all(|&b| b == 0));
}
