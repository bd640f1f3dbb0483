use nes::mapper::{create_mapper, AnyMapper, Mapper, MapperResult, SxCtrl, SxPrgBankMode, TxBankSelect, TxPrgBankMode};
use nes::rom::Rom;

/// A ROM whose 16K PRG banks are each filled with their own index, with the given mapper.
fn banked_rom(mapper: u8, prg_banks: u8, chr_banks: u8) -> Rom {
    let mut bytes = vec![0x4e, 0x45, 0x53, 0x1a, prg_banks, chr_banks, mapper << 4, 0, 0, 0, 0, 0, 0, 0, 0, 0];
    for b in 0..prg_banks as usize {
        for i in 0..16384 {
            // 8K halves: 2b and 2b + 1 for MMC3's 8K banks.
            bytes.push(if i < 8192 { (2 * b) as u8 } else { (2 * b + 1) as u8 });
        }
    }
    for i in 0..(chr_banks as usize * 8192) {
        bytes.push((i / 1024) as u8);
    }
    Rom::from_bytes(&bytes).unwrap()
}

fn serial_write(m: &mut AnyMapper, addr: u16, value: u8) {
    for i in 0..5 {
        m.prg_storeb(addr, (value >> i) & 1);
    }
}

#[test]
fn nrom_mirrors_single_bank() {
    let mut m = create_mapper(banked_rom(0, 1, 1));
    assert!(matches!(m, AnyMapper::Nrom(_)));
    assert_eq!(m.prg_loadb(0x8000), 0);
    assert_eq!(m.prg_loadb(0xa000), 1);
    assert_eq!(m.prg_loadb(0xc000), 0);
    assert_eq!(m.prg_loadb(0xe000), 1);
    assert_eq!(m.prg_loadb(0x6000), 0);
    assert_eq!(m.chr_loadb(0x0400), 1);
    assert!(m.next_scanline() == MapperResult::Continue);
}

#[test]
fn nrom_two_banks() {
    let mut m = create_mapper(banked_rom(0, 2, 1));
    assert_eq!(m.prg_loadb(0x8000), 0);
    assert_eq!(m.prg_loadb(0xc000), 2);
}

#[test]
fn sxrom_serial_port_selects_prg_bank() {
    let mut m = create_mapper(banked_rom(1, 8, 0));
    assert!(matches!(m, AnyMapper::SxRom(_)));
    // Power-on: last bank fixed at $C000, bank 0 at $8000.
    assert_eq!(m.prg_loadb(0x8000), 0);
    assert_eq!(m.prg_loadb(0xc000), 14);
    serial_write(&mut m, 0xe000, 3);
    assert_eq!(m.prg_loadb(0x8000), 6);
    assert_eq!(m.prg_loadb(0xc000), 14);
}

#[test]
fn sxrom_control_selects_32k_mode() {
    let mut m = create_mapper(banked_rom(1, 8, 0));
    serial_write(&mut m, 0xe000, 5);
    // Control 0b00000: 32K mode, the pair of banks around an even bank.
    serial_write(&mut m, 0x8000, 0);
    assert_eq!(m.prg_loadb(0x8000), 8);
    assert_eq!(m.prg_loadb(0xc000), 10);
}

#[test]
fn sxrom_reset_bit_clears_shift_register() {
    let mut m = create_mapper(banked_rom(1, 8, 0));
    m.prg_storeb(0xe000, 1);
    m.prg_storeb(0xe000, 1);
    m.prg_storeb(0x8000, 0x80);
    serial_write(&mut m, 0xe000, 2);
    assert_eq!(m.prg_loadb(0x8000), 4);
}

#[test]
fn sxrom_chr_ram() {
    let mut m = create_mapper(banked_rom(1, 2, 0));
    m.chr_storeb(0x0123, 0x99);
    assert_eq!(m.chr_loadb(0x0123), 0x99);
}

#[test]
fn sxctrl_modes() {
    assert!(SxCtrl(0x00).prg_rom_mode() == SxPrgBankMode::Switch32K);
    assert!(SxCtrl(0x04).prg_rom_mode() == SxPrgBankMode::Switch32K);
    assert!(SxCtrl(0x08).prg_rom_mode() == SxPrgBankMode::FixFirstBank);
    assert!(SxCtrl(0x0c).prg_rom_mode() == SxPrgBankMode::FixLastBank);
}

#[test]
fn txrom_banks() {
    let mut m = create_mapper(banked_rom(4, 4, 1));
    assert!(matches!(m, AnyMapper::TxRom(_)));
    // Last 8K bank fixed at $E000, second-to-last at $C000.
    assert_eq!(m.prg_loadb(0xe000), 7);
    assert_eq!(m.prg_loadb(0xc000), 6);
    // R6 = 3 at $8000.
    m.prg_storeb(0x8000, 6);
    m.prg_storeb(0x8001, 3);
    assert_eq!(m.prg_loadb(0x8000), 3);
    // R7 = 5 at $A000.
    m.prg_storeb(0x8000, 7);
    m.prg_storeb(0x8001, 5);
    assert_eq!(m.prg_loadb(0xa000), 5);
    // PRG mode 1 swaps $8000 and $C000.
    m.prg_storeb(0x8000, 0x40);
    assert_eq!(m.prg_loadb(0x8000), 6);
    assert_eq!(m.prg_loadb(0xc000), 3);
}

#[test]
fn txrom_prg_ram() {
    let mut m = create_mapper(banked_rom(4, 2, 1));
    m.prg_storeb(0x6010, 0x42);
    assert_eq!(m.prg_loadb(0x6010), 0x42);
}

#[test]
fn txrom_scanline_irq() {
    let mut m = create_mapper(banked_rom(4, 2, 1));
    m.prg_storeb(0xc000, 2);
    m.prg_storeb(0xc001, 0);
    m.prg_storeb(0xe001, 0);
    assert!(m.next_scanline() == MapperResult::Continue);
    assert!(m.next_scanline() == MapperResult::Irq);
    assert!(m.next_scanline() == MapperResult::Continue);
    assert!(m.next_scanline() == MapperResult::Irq);
    m.prg_storeb(0xe000, 0);
    assert!(m.next_scanline() == MapperResult::Continue);
    assert!(m.next_scanline() == MapperResult::Continue);
}

#[test]
fn txrom_chr_banks() {
    let mut m = create_mapper(banked_rom(4, 2, 1));
    // R2 = 5: the 1K bank at $1000.
    m.prg_storeb(0x8000, 2);
    m.prg_storeb(0x8001, 5);
    assert_eq!(m.chr_loadb(0x1000), 5);
    // A12 inversion puts it at $0000.
    m.prg_storeb(0x8000, 0x80);
    assert_eq!(m.chr_loadb(0x0000), 5);
}

#[test]
fn txbankselect_fields() {
    let b = TxBankSelect(0xc5);
    assert_eq!(b.bank_update_select(), 5);
    assert!(b.prg_bank_mode() == TxPrgBankMode::SwappableC000);
    assert!(b.chr_a12_inversion());
    let b = TxBankSelect(0x02);
    assert!(b.prg_bank_mode() == TxPrgBankMode::Swappable8000);
    assert!(!b.chr_a12_inversion());
}
