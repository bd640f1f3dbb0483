use nes::apu::Apu;
use nes::input::Input;
use nes::mapper::create_mapper;
use nes::cpu::Cpu;
use nes::mem::{Mem, MemMap, MemUtil, Ram};
use nes::util::Save;
use nes::ppu::{Oam, Ppu, Vram};
use nes::rom::Rom;

fn nrom_image(prg_fill: u8) -> Vec<u8> {
    let mut bytes = vec![0x4e, 0x45, 0x53, 0x1a, 1, 1, 0x00, 0x00, 0, 0, 0, 0, 0, 0, 0, 0];
    let mut prg = vec![prg_fill; 16384];
    prg[0] = 0xaa;
    prg[0x3fff] = 0xbb;
    bytes.extend_from_slice(&prg);
    bytes.extend_from_slice(&vec![0u8; 8192]);
    bytes
}

fn machine() -> MemMap {
    let rom = Rom::from_bytes(&nrom_image(0x11)).unwrap();
    let mapper = create_mapper(rom);
    MemMap::new(Ppu::new(Vram::new(mapper), Oam::new()), Input::new(), Apu::new())
}

#[test]
fn ram_store_then_load() {
    let mut ram = Ram::new();
    ram.storeb(0x0123, 0x5a);
    assert_eq!(ram.loadb(0x0123), 0x5a);
    assert_eq!(ram.loadb(0x0124), 0);
}

#[test]
fn ram_mirrors_every_2k() {
    let mut ram = Ram::new();
    ram.storeb(0x0001, 7);
    assert_eq!(ram.loadb(0x0801), 7);
    assert_eq!(ram.loadb(0x1001), 7);
    assert_eq!(ram.loadb(0x1801), 7);
    ram.storeb(0x1fff, 9);
    assert_eq!(ram.loadb(0x07ff), 9);
}

#[test]
fn words_are_little_endian() {
    let mut ram = Ram::new();
    ram.storew(0x0010, 0xbeef);
    assert_eq!(ram.val[0x10], 0xef);
    assert_eq!(ram.val[0x11], 0xbe);
    assert_eq!(ram.loadw(0x0010), 0xbeef);
}

#[test]
fn zero_page_word_wraps_in_page() {
    let mut ram = Ram::new();
    ram.storeb(0x00ff, 0x34);
    ram.storeb(0x0000, 0x12);
    ram.storeb(0x0100, 0x99);
    assert_eq!(ram.loadw_zp(0xff), 0x1234);
}

#[test]
fn memmap_ram_region() {
    let mut m = machine();
    m.storeb(0x0042, 3);
    assert_eq!(m.loadb(0x0842), 3);
    assert_eq!(m.ram.val[0x42], 3);
}

#[test]
fn memmap_cartridge_region() {
    let mut m = machine();
    assert_eq!(m.loadb(0x8000), 0xaa);
    // One 16K bank is mirrored at $C000.
    assert_eq!(m.loadb(0xc000), 0xaa);
    assert_eq!(m.loadb(0xffff), 0xbb);
    assert_eq!(m.loadb(0x9000), 0x11);
}

#[test]
fn memmap_unmapped_reads_zero() {
    let mut m = machine();
    assert_eq!(m.loadb(0x5000), 0);
    assert_eq!(m.loadb(0x4020), 0);
}

#[test]
fn memmap_pad_port() {
    let mut m = machine();
    m.input.gamepad_0.a = true;
    m.storeb(0x4016, 1);
    assert_eq!(m.loadb(0x4016), 1);
    assert_eq!(m.loadb(0x4016), 0);
}

#[test]
fn memmap_ppu_registers_mirror() {
    let mut m = machine();
    m.storeb(0x2000, 0x80);
    assert_eq!(m.ppu.regs.ctrl.0, 0x80);
    m.storeb(0x3ff8, 0x04);
    assert_eq!(m.ppu.regs.ctrl.0, 0x04);
    assert_eq!(m.loadb(0x2008), 0x04);
}

#[test]
fn machine_savestate_round_trip() {
    let mut cpu = Cpu::new(machine());
    cpu.cy = 123456;
    cpu.regs.a = 0x42;
    cpu.regs.pc = 0x8123;
    cpu.mem.ram.val[0x10] = 0x99;
    cpu.mem.storeb(0x4015, 0x0f);
    cpu.mem.storeb(0x4000, 0x30);
    cpu.mem.storeb(0x4003, 0x08);
    cpu.mem.apu.cy = 777;
    let mut bytes = Vec::new();
    cpu.save(&mut bytes);
    assert_eq!(bytes.len(), 8 + 7 + 0x800 + 84);
    let mut other = Cpu::new(machine());
    assert_eq!(other.load(&bytes, 0), bytes.len());
    assert_eq!(other.cy, 123456);
    assert!(other.regs == cpu.regs);
    assert!(other.mem.ram.val[..] == cpu.mem.ram.val[..]);
    assert!(other.mem.apu.regs.pulses == cpu.mem.apu.regs.pulses);
    assert_eq!(other.mem.apu.regs.status.val, 0x0f);
    assert_eq!(other.mem.apu.cy, 777);
    // Saving the loaded machine gives the same bytes.
    let mut again = Vec::new();
    other.save(&mut again);
    assert_eq!(again, bytes);
}
