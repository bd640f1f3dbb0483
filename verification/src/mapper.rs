//! Cartridge mappers: how the cartridge answers the CPU's PRG accesses and the PPU's CHR
//! accesses.

use vstd::prelude::*;

use crate::rom::Rom;

verus! {

#[derive(Clone, Copy, PartialEq, Eq, Structural, Debug)]
pub enum MapperResult {
    Continue,
    Irq,
}

/// A cartridge mapper.  Loads do not change the mapper; a load that indexes past the end of
/// the ROM banks is not served (`None`).
pub trait Mapper: Sized {
    spec fn prg_load_spec(&self, addr: u16) -> Option<u8>;

    spec fn prg_store_spec(&self, addr: u16, val: u8) -> Self;

    spec fn chr_load_spec(&self, addr: u16) -> Option<u8>;

    spec fn chr_store_spec(&self, addr: u16, val: u8) -> Self;

    spec fn next_scanline_spec(&self) -> (Self, MapperResult);

    fn prg_loadb(&mut self, addr: u16) -> (val: u8)
        requires
            old(self).prg_load_spec(addr) is Some,
        ensures
            *final(self) == *old(self),
            old(self).prg_load_spec(addr) == Some(val),
    ;

    fn prg_storeb(&mut self, addr: u16, val: u8)
        ensures
            *final(self) == old(self).prg_store_spec(addr, val),
    ;

    fn chr_loadb(&mut self, addr: u16) -> (val: u8)
        requires
            old(self).chr_load_spec(addr) is Some,
        ensures
            *final(self) == *old(self),
            old(self).chr_load_spec(addr) == Some(val),
    ;

    fn chr_storeb(&mut self, addr: u16, val: u8)
        ensures
            *final(self) == old(self).chr_store_spec(addr, val),
    ;

    fn next_scanline(&mut self) -> (r: MapperResult)
        ensures
            (*final(self), r) == old(self).next_scanline_spec(),
    ;
}

/// The byte at index `i` of `v`, when there is one.
pub open spec fn byte_at(v: Seq<u8>, i: int) -> Option<u8> {
    if 0 <= i < v.len() { Some(v[i]) } else { None }
}

//
// Mapper 0 (NROM)
//
// See http://wiki.nesdev.com/w/index.php/NROM
//

pub struct Nrom {
    pub rom: Rom,
}

impl Mapper for Nrom {
    /// $8000-$FFFF maps the PRG-ROM; a single 16K bank is mirrored at $C000.
    open spec fn prg_load_spec(&self, addr: u16) -> Option<u8> {
        if addr < 0x8000 {
            Some(0)
        } else if self.rom.prg@.len() > 16384 {
            byte_at(self.rom.prg@, (addr % 0x8000) as int)
        } else {
            byte_at(self.rom.prg@, (addr % 0x4000) as int)
        }
    }

    /// Can't store to PRG-ROM.
    open spec fn prg_store_spec(&self, addr: u16, val: u8) -> Self {
        *self
    }

    open spec fn chr_load_spec(&self, addr: u16) -> Option<u8> {
        byte_at(self.rom.chr@, addr as int)
    }

    /// Can't store to CHR-ROM.
    open spec fn chr_store_spec(&self, addr: u16, val: u8) -> Self {
        *self
    }

    open spec fn next_scanline_spec(&self) -> (Self, MapperResult) {
        (*self, MapperResult::Continue)
    }

    fn prg_loadb(&mut self, addr: u16) -> (val: u8) {
        proof { crate::bits::lemma_word(addr); }
        if addr < 0x8000 {
            0u8
        } else if self.rom.prg.len() > 16384 {
            self.rom.prg[(addr & 0x7fff) as usize]
        } else {
            self.rom.prg[(addr & 0x3fff) as usize]
        }
    }

    fn prg_storeb(&mut self, addr: u16, val: u8) {
    }

    fn chr_loadb(&mut self, addr: u16) -> (val: u8) {
        self.rom.chr[addr as usize]
    }

    fn chr_storeb(&mut self, addr: u16, val: u8) {
    }

    fn next_scanline(&mut self) -> (r: MapperResult) {
        MapperResult::Continue
    }
}

//
// Mapper 1 (SxROM/MMC1)
//
// See http://wiki.nesdev.com/w/index.php/Nintendo_MMC1
//

#[derive(Clone, Copy, PartialEq, Eq, Structural)]
pub struct SxCtrl(pub u8);

pub enum Mirroring {
    OneScreenLower,
    OneScreenUpper,
    Vertical,
    Horizontal,
}

#[derive(Clone, Copy, PartialEq, Eq, Structural)]
pub enum SxPrgBankMode {
    /// Switch 32K at $8000, ignore low bit
    Switch32K,
    /// Fix first bank at $8000, switch 16K bank at $C000
    FixFirstBank,
    /// Fix last bank at $C000, switch 16K bank at $8000
    FixLastBank,
}

/// The PRG bank mode held in bits 2-3 of the control register.
pub open spec fn spec_prg_rom_mode(ctrl: u8) -> SxPrgBankMode {
    let m = (ctrl / 4) % 4;
    if m < 2 {
        SxPrgBankMode::Switch32K
    } else if m == 2 {
        SxPrgBankMode::FixFirstBank
    } else {
        SxPrgBankMode::FixLastBank
    }
}

impl SxCtrl {
    pub fn prg_rom_mode(self) -> (m: SxPrgBankMode)
        ensures
            m == spec_prg_rom_mode(self.0),
    {
        let c = self.0;
        proof { crate::bits::lemma_byte(c); }
        match (self.0 >> 2u8) & 3 {
            0 | 1 => SxPrgBankMode::Switch32K,
            2 => SxPrgBankMode::FixFirstBank,
            _ => SxPrgBankMode::FixLastBank,
        }
    }
}

#[derive(Clone, Copy, PartialEq, Eq, Structural)]
pub struct SxRegs {
    /// $8000-$9FFF
    pub ctrl: SxCtrl,
    /// $A000-$BFFF
    pub chr_bank_0: u8,
    /// $C000-$DFFF
    pub chr_bank_1: u8,
    /// $E000-$FFFF
    pub prg_bank: u8,
}

/// 2 to the power `i`, for the bit positions of the MMC1 shift register.
pub open spec fn pow2_5(i: u8) -> int {
    if i == 0 { 1 } else if i == 1 { 2 } else if i == 2 { 4 } else if i == 3 { 8 } else { 16 }
}

pub struct SxRom {
    rom: Rom,
    regs: SxRegs,
    /// The internal accumulator.
    accum: u8,
    /// The write count. At the 5th write, we update the register.
    write_count: u8,
    prg_ram: [u8; 8192],
    chr_ram: [u8; 8192],
}

impl SxRom {
    /// The serial port holds fewer than five bits, below position `write_count`.
    #[verifier::type_invariant]
    closed spec fn inv(self) -> bool {
        self.write_count < 5 && self.accum < pow2_5(self.write_count)
    }

    pub closed spec fn rom(self) -> Rom {
        self.rom
    }

    pub closed spec fn regs(self) -> SxRegs {
        self.regs
    }

    pub closed spec fn accum(self) -> u8 {
        self.accum
    }

    pub closed spec fn write_count(self) -> u8 {
        self.write_count
    }

    pub closed spec fn chr_ram(self) -> Seq<u8> {
        self.chr_ram@
    }

    /// The 8K of PRG-RAM.
    pub closed spec fn prg_ram(self) -> Seq<u8> {
        self.prg_ram@
    }

    /// The state after a write through the serial port at `addr` ($8000 and up).
    pub closed spec fn serial_write(self, addr: u16, val: u8) -> Self {
        if val >= 0x80 {
            // The reset flag.
            SxRom {
                accum: 0,
                write_count: 0,
                regs: SxRegs { ctrl: SxCtrl(self.regs.ctrl.0 | 0x0c), ..self.regs },
                ..self
            }
        } else {
            let accum = (self.accum + (val % 2) * pow2_5(self.write_count)) as u8;
            if self.write_count + 1 == 5 {
                let regs = if addr <= 0x9fff {
                    SxRegs { ctrl: SxCtrl(accum), ..self.regs }
                } else if addr <= 0xbfff {
                    SxRegs { chr_bank_0: accum, ..self.regs }
                } else if addr <= 0xdfff {
                    SxRegs { chr_bank_1: accum, ..self.regs }
                } else {
                    SxRegs { prg_bank: accum, ..self.regs }
                };
                SxRom { accum: 0, write_count: 0, regs: regs, ..self }
            } else {
                SxRom { accum: accum, write_count: (self.write_count + 1) as u8, ..self }
            }
        }
    }

    pub fn new(rom: Rom) -> (r: SxRom)
        ensures
            r.rom() == rom,
            r.regs() == (SxRegs { ctrl: SxCtrl(0x0c), chr_bank_0: 0, chr_bank_1: 0, prg_bank: 0 }),
            r.accum() == 0,
            r.write_count() == 0,
            forall|i: int| 0 <= i < 8192 ==> r.chr_ram()[i] == 0,
    {
        proof { crate::bits::lemma_byte(0); }
        SxRom {
            rom: rom,
            regs: SxRegs { ctrl: SxCtrl(3 << 2), chr_bank_0: 0, chr_bank_1: 0, prg_bank: 0 },
            accum: 0,
            write_count: 0,
            prg_ram: [0; 8192],
            chr_ram: [0; 8192],
        }
    }
}

impl Mapper for SxRom {
    /// $8000-$BFFF and $C000-$FFFF each show a 16K PRG bank chosen by the bank mode.
    open spec fn prg_load_spec(&self, addr: u16) -> Option<u8> {
        let bank: int = self.regs().prg_bank as int;
        if addr < 0x8000 {
            Some(0)
        } else if addr < 0xc000 {
            let b = match spec_prg_rom_mode(self.regs().ctrl.0) {
                SxPrgBankMode::Switch32K => bank - bank % 2,
                SxPrgBankMode::FixFirstBank => 0,
                SxPrgBankMode::FixLastBank => bank,
            };
            byte_at(self.rom().prg@, b * 16384 + addr % 0x4000)
        } else {
            let b = match spec_prg_rom_mode(self.regs().ctrl.0) {
                SxPrgBankMode::Switch32K => bank - bank % 2 + 1,
                SxPrgBankMode::FixFirstBank => bank,
                SxPrgBankMode::FixLastBank => (self.rom().header.prg_rom_size + 255) % 256,
            };
            byte_at(self.rom().prg@, b * 16384 + addr % 0x4000)
        }
    }

    open spec fn prg_store_spec(&self, addr: u16, val: u8) -> Self {
        if addr < 0x8000 { *self } else { self.serial_write(addr, val) }
    }

    /// The 8K of CHR-RAM.
    open spec fn chr_load_spec(&self, addr: u16) -> Option<u8> {
        byte_at(self.chr_ram(), addr as int)
    }

    closed spec fn chr_store_spec(&self, addr: u16, val: u8) -> Self {
        if addr < 0x2000 {
            SxRom { chr_ram: vstd::array::spec_array_update(self.chr_ram, addr as int, val), ..*self }
        } else {
            *self
        }
    }

    open spec fn next_scanline_spec(&self) -> (Self, MapperResult) {
        (*self, MapperResult::Continue)
    }

    fn prg_loadb(&mut self, addr: u16) -> (val: u8) {
        let a = addr;
        proof { crate::bits::lemma_word(a); }
        let p = self.regs.prg_bank;
        proof { crate::bits::lemma_byte(p); }
        if addr < 0x8000 {
            0u8
        } else if addr < 0xc000 {
            let bank = match self.regs.ctrl.prg_rom_mode() {
                SxPrgBankMode::Switch32K => self.regs.prg_bank & 0xfe,
                SxPrgBankMode::FixFirstBank => 0,
                SxPrgBankMode::FixLastBank => self.regs.prg_bank,
            };
            self.rom.prg[bank as usize * 16384 + (addr & 0x3fff) as usize]
        } else {
            let bank = match self.regs.ctrl.prg_rom_mode() {
                SxPrgBankMode::Switch32K => (self.regs.prg_bank & 0xfe) | 1,
                SxPrgBankMode::FixFirstBank => self.regs.prg_bank,
                SxPrgBankMode::FixLastBank => self.rom.header.prg_rom_size.wrapping_sub(1),
            };
            self.rom.prg[bank as usize * 16384 + (addr & 0x3fff) as usize]
        }
    }

    fn prg_storeb(&mut self, addr: u16, val: u8)
        ensures
            final(self).write_count() < 5,
            final(self).accum() < pow2_5(final(self).write_count()),
    {
        proof {
            use_type_invariant(&*self);
        }
        if addr < 0x8000 {
            return;
        }
        // Check the reset flag.
        proof { crate::bits::lemma_byte(val); }
        if (val & 0x80) != 0 {
            self.accum = 0;
            self.write_count = 0;
            self.regs.ctrl = SxCtrl(self.regs.ctrl.0 | (3 << 2));
            return;
        }
        // Write the lowest bit of the value into the right location of the accumulator.
        let (acc, wc) = (self.accum, self.write_count);
        assert(acc | ((val & 1) << wc) == acc + (val % 2) * pow2_5(wc)) by (bit_vector)
            requires
                wc < 5,
                acc < pow2_5(wc),
        ;
        let accum = self.accum | ((val & 1) << self.write_count);
        if self.write_count + 1 == 5 {
            self.accum = 0;
            self.write_count = 0;
            // Write to the right internal register.
            if addr <= 0x9fff {
                self.regs.ctrl = SxCtrl(accum);
            } else if addr <= 0xbfff {
                self.regs.chr_bank_0 = accum;
            } else if addr <= 0xdfff {
                self.regs.chr_bank_1 = accum;
            } else {
                self.regs.prg_bank = accum;
            }
        } else {
            assert(pow2_5((wc + 1) as u8) == 2 * pow2_5(wc));
            assert(accum as int == acc + (val % 2) * pow2_5(wc));
            assert(accum < pow2_5((wc + 1) as u8)) by {
                if val % 2 == 0 {
                    assert((val % 2) * pow2_5(wc) == 0);
                } else {
                    assert((val % 2) * pow2_5(wc) == pow2_5(wc));
                }
            }
            self.write_count = self.write_count + 1;
            self.accum = accum;
        }
    }

    // FIXME: Apparently this mapper can have CHR-ROM as well. Handle this case.
    fn chr_loadb(&mut self, addr: u16) -> (val: u8) {
        self.chr_ram[addr as usize]
    }

    fn chr_storeb(&mut self, addr: u16, val: u8) {
        proof {
            use_type_invariant(&*self);
        }
        if addr < 0x2000 {
            self.chr_ram[addr as usize] = val;
        }
    }

    fn next_scanline(&mut self) -> (r: MapperResult) {
        MapperResult::Continue
    }
}

//
// Mapper 4 (TxROM/MMC3)
//
// See http://wiki.nesdev.com/w/index.php/MMC3
//

#[derive(Clone, Copy, PartialEq, Eq, Structural)]
pub struct TxBankSelect(pub u8);

#[derive(Clone, Copy, PartialEq, Eq, Structural)]
pub enum TxPrgBankMode {
    Swappable8000,
    SwappableC000,
}

impl TxBankSelect {
    /// Bits 0-2: which bank register the next bank data write updates.
    pub fn bank_update_select(self) -> (r: u8)
        ensures
            r == self.0 % 8,
    {
        let v = self.0;
        proof { crate::bits::lemma_byte(v); }
        self.0 & 0x7
    }

    /// Bit 6: whether $8000 or $C000 is the swappable bank.
    pub fn prg_bank_mode(self) -> (r: TxPrgBankMode)
        ensures
            r == (if (self.0 / 64) % 2 == 0 { TxPrgBankMode::Swappable8000 } else {
                TxPrgBankMode::SwappableC000
            }),
    {
        let v = self.0;
        proof { crate::bits::lemma_byte(v); }
        if (self.0 & 0x40) == 0 {
            TxPrgBankMode::Swappable8000
        } else {
            TxPrgBankMode::SwappableC000
        }
    }

    /// Bit 7: whether the 2K and 1K CHR banks trade places.
    pub fn chr_a12_inversion(self) -> (r: bool)
        ensures
            r == (self.0 >= 0x80),
    {
        let v = self.0;
        proof { crate::bits::lemma_byte(v); }
        (self.0 & 0x80) != 0
    }
}

#[derive(Clone, Copy, PartialEq, Eq, Structural)]
pub struct TxRegs {
    /// Bank select (0x8000-0x9ffe even)
    pub bank_select: TxBankSelect,
}

pub struct TxRom {
    pub rom: Rom,
    pub regs: TxRegs,
    pub prg_ram: [u8; 8192],
    /// 2KB CHR-ROM banks
    pub chr_banks_2k: [u8; 2],
    /// 1KB CHR-ROM banks
    pub chr_banks_1k: [u8; 4],
    /// 8KB PRG-ROM banks
    pub prg_banks: [u8; 2],
    pub scanline_counter: u8,
    /// Copied into the scanline counter when it hits zero.
    pub irq_reload: u8,
    pub irq_enabled: bool,
}

/// The number of 8K PRG banks, counted in a byte.
pub open spec fn spec_prg_bank_count(prg_rom_size: u8) -> int {
    (prg_rom_size * 2) % 256
}

impl TxRom {
    pub fn new(rom: Rom) -> (r: TxRom)
        ensures
            r.rom == rom,
            r.regs.bank_select.0 == 0,
            r.chr_banks_2k@ == seq![0u8, 0],
            r.chr_banks_1k@ == seq![0u8, 0, 0, 0],
            r.prg_banks@ == seq![0u8, 0],
            r.scanline_counter == 0,
            r.irq_reload == 0,
            !r.irq_enabled,
            forall|i: int| 0 <= i < 8192 ==> r.prg_ram@[i] == 0,
    {
        let r = TxRom {
            rom: rom,
            regs: TxRegs { bank_select: TxBankSelect(0) },
            prg_ram: [0; 8192],
            chr_banks_2k: [0, 0],
            chr_banks_1k: [0, 0, 0, 0],
            prg_banks: [0, 0],
            scanline_counter: 0,
            irq_reload: 0,
            irq_enabled: false,
        };
        assert(r.chr_banks_2k@ =~= seq![0u8, 0]);
        assert(r.chr_banks_1k@ =~= seq![0u8, 0, 0, 0]);
        assert(r.prg_banks@ =~= seq![0u8, 0]);
        r
    }

    pub fn prg_bank_count(&self) -> (n: u8)
        ensures
            n == spec_prg_bank_count(self.rom.header.prg_rom_size),
    {
        self.rom.header.prg_rom_size.wrapping_mul(2)
    }

    /// The 8K bank shown at $8000 ($C000 when `high`), per the PRG bank mode.
    pub open spec fn swappable_or_fixed_bank(&self, high: bool) -> int {
        let second_last = (spec_prg_bank_count(self.rom.header.prg_rom_size) + 254) % 256;
        let swappable_at_8000 = (self.regs.bank_select.0 / 64) % 2 == 0;
        if swappable_at_8000 != high { self.prg_banks@[0] as int } else { second_last }
    }

    /// The CHR bank and whether it is a 2K bank, for a CHR address below $2000.
    pub open spec fn chr_bank(&self, addr: u16) -> (int, bool) {
        let a = if self.regs.bank_select.0 >= 0x80 { addr ^ 0x1000 } else { addr };
        if a < 0x0800 {
            (self.chr_banks_2k@[0] as int, true)
        } else if a < 0x1000 {
            (self.chr_banks_2k@[1] as int, true)
        } else if a < 0x1400 {
            (self.chr_banks_1k@[0] as int, false)
        } else if a < 0x1800 {
            (self.chr_banks_1k@[1] as int, false)
        } else if a < 0x1c00 {
            (self.chr_banks_1k@[2] as int, false)
        } else {
            (self.chr_banks_1k@[3] as int, false)
        }
    }
}

impl Mapper for TxRom {
    /// $6000-$7FFF is PRG-RAM; four 8K PRG windows follow, the last fixed to the last bank.
    open spec fn prg_load_spec(&self, addr: u16) -> Option<u8> {
        let count = spec_prg_bank_count(self.rom.header.prg_rom_size);
        let off = addr % 0x2000;
        if addr < 0x6000 {
            Some(0)
        } else if addr < 0x8000 {
            Some(self.prg_ram@[off as int])
        } else if addr < 0xa000 {
            byte_at(self.rom.prg@, self.swappable_or_fixed_bank(false) * 8192 + off)
        } else if addr < 0xc000 {
            byte_at(self.rom.prg@, self.prg_banks@[1] * 8192 + off)
        } else if addr < 0xe000 {
            byte_at(self.rom.prg@, self.swappable_or_fixed_bank(true) * 8192 + off)
        } else {
            byte_at(self.rom.prg@, ((count + 255) % 256) * 8192 + off)
        }
    }

    open spec fn prg_store_spec(&self, addr: u16, val: u8) -> Self {
        if addr < 0x6000 {
            *self
        } else if addr < 0x8000 {
            TxRom {
                prg_ram: vstd::array::spec_array_update(self.prg_ram, (addr % 0x2000) as int, val),
                ..*self
            }
        } else if addr < 0xa000 {
            if addr % 2 == 0 {
                // Bank select.
                TxRom { regs: TxRegs { bank_select: TxBankSelect(val) }, ..*self }
            } else {
                // Bank data.
                let sel = self.regs.bank_select.0 % 8;
                if sel < 2 {
                    TxRom {
                        chr_banks_2k: vstd::array::spec_array_update(self.chr_banks_2k, sel as int, val),
                        ..*self
                    }
                } else if sel < 6 {
                    TxRom {
                        chr_banks_1k: vstd::array::spec_array_update(self.chr_banks_1k, sel - 2, val),
                        ..*self
                    }
                } else {
                    TxRom {
                        prg_banks: vstd::array::spec_array_update(self.prg_banks, sel - 6, val),
                        ..*self
                    }
                }
            }
        } else if addr < 0xc000 {
            // TODO: Mirroring and PRG-RAM protect
            *self
        } else if addr < 0xe000 {
            if addr % 2 == 0 {
                // IRQ latch.
                TxRom { irq_reload: val, ..*self }
            } else {
                // IRQ reload.
                TxRom { scanline_counter: self.irq_reload, ..*self }
            }
        } else {
            // IRQ enable.
            TxRom { irq_enabled: addr % 2 == 1, ..*self }
        }
    }

    /// CHR-ROM through two 2K and four 1K banks; the A12 inversion swaps the halves.
    open spec fn chr_load_spec(&self, addr: u16) -> Option<u8> {
        if addr >= 0x2000 {
            Some(0)
        } else {
            let (bank, two_kb) = self.chr_bank(addr);
            if two_kb {
                byte_at(self.rom.chr@, bank * 1024 + addr % 0x800)
            } else {
                byte_at(self.rom.chr@, bank * 1024 + addr % 0x400)
            }
        }
    }

    /// TODO: CHR-RAM
    open spec fn chr_store_spec(&self, addr: u16, val: u8) -> Self {
        *self
    }

    /// The scanline counter counts down; when it reaches zero it reloads, and an IRQ is
    /// raised when enabled.  A counter at zero stays there.
    open spec fn next_scanline_spec(&self) -> (Self, MapperResult) {
        if self.scanline_counter != 0 {
            if self.scanline_counter == 1 {
                (
                    TxRom { scanline_counter: self.irq_reload, ..*self },
                    if self.irq_enabled { MapperResult::Irq } else { MapperResult::Continue },
                )
            } else {
                (TxRom { scanline_counter: (self.scanline_counter - 1) as u8, ..*self },
                MapperResult::Continue)
            }
        } else {
            (*self, MapperResult::Continue)
        }
    }

    fn prg_loadb(&mut self, addr: u16) -> (val: u8) {
        let a = addr;
        assert(a & 0x1fff == a % 0x2000) by { crate::bits::lemma_word(a); }
        if addr < 0x6000 {
            0u8
        } else if addr < 0x8000 {
            self.prg_ram[(addr & 0x1fff) as usize]
        } else if addr < 0xa000 {
            // $8000-$9FFF might be switchable or fixed to the second to last bank.
            let bank = match self.regs.bank_select.prg_bank_mode() {
                TxPrgBankMode::Swappable8000 => self.prg_banks[0],
                TxPrgBankMode::SwappableC000 => self.prg_bank_count().wrapping_sub(2),
            };
            self.rom.prg[bank as usize * 8192 + (addr & 0x1fff) as usize]
        } else if addr < 0xc000 {
            // $A000-$BFFF is switchable.
            self.rom.prg[self.prg_banks[1] as usize * 8192 + (addr & 0x1fff) as usize]
        } else if addr < 0xe000 {
            // $C000-$DFFF might be switchable or fixed to the second to last bank.
            let bank = match self.regs.bank_select.prg_bank_mode() {
                TxPrgBankMode::Swappable8000 => self.prg_bank_count().wrapping_sub(2),
                TxPrgBankMode::SwappableC000 => self.prg_banks[0],
            };
            self.rom.prg[bank as usize * 8192 + (addr & 0x1fff) as usize]
        } else {
            // $E000-$FFFF is fixed to the last bank.
            let bank = self.prg_bank_count().wrapping_sub(1);
            self.rom.prg[bank as usize * 8192 + (addr & 0x1fff) as usize]
        }
    }

    fn prg_storeb(&mut self, addr: u16, val: u8) {
        let a = addr;
        proof { crate::bits::lemma_word(a); }
        if addr < 0x6000 {
            return;
        }
        if addr < 0x8000 {
            self.prg_ram[(addr & 0x1fff) as usize] = val;
        } else if addr < 0xa000 {
            if (addr & 1) == 0 {
                // Bank select.
                self.regs.bank_select = TxBankSelect(val);
            } else {
                // Bank data.
                let bank_update_select = self.regs.bank_select.bank_update_select();
                if bank_update_select < 2 {
                    self.chr_banks_2k[bank_update_select as usize] = val;
                } else if bank_update_select < 6 {
                    self.chr_banks_1k[(bank_update_select - 2) as usize] = val;
                } else {
                    self.prg_banks[(bank_update_select - 6) as usize] = val;
                }
            }
        } else if addr < 0xc000 {
            // TODO: Mirroring and PRG-RAM protect
        } else if addr < 0xe000 {
            if (addr & 1) == 0 {
                // IRQ latch.
                self.irq_reload = val;
            } else {
                // IRQ reload.
                self.scanline_counter = self.irq_reload;
            }
        } else {
            // IRQ enable.
            self.irq_enabled = (addr & 1) == 1;
        }
    }

    fn chr_loadb(&mut self, addr: u16) -> (val: u8) {
        let a = addr;
        proof { crate::bits::lemma_word(a); }
        let inv = self.regs.bank_select.chr_a12_inversion();
        let (bank, two_kb) = if (addr <= 0x07ff && !inv) || (0x1000 <= addr && addr <= 0x17ff
            && inv) {
            (self.chr_banks_2k[0], true)
        } else if (0x0800 <= addr && addr <= 0x0fff && !inv) || (0x1800 <= addr && addr
            <= 0x1fff && inv) {
            (self.chr_banks_2k[1], true)
        } else if (0x1000 <= addr && addr <= 0x13ff && !inv) || (addr <= 0x03ff && inv) {
            (self.chr_banks_1k[0], false)
        } else if (0x1400 <= addr && addr <= 0x17ff && !inv) || (0x0400 <= addr && addr
            <= 0x07ff && inv) {
            (self.chr_banks_1k[1], false)
        } else if (0x1800 <= addr && addr <= 0x1bff && !inv) || (0x0800 <= addr && addr
            <= 0x0bff && inv) {
            (self.chr_banks_1k[2], false)
        } else if (0x1c00 <= addr && addr <= 0x1fff && !inv) || (0x0c00 <= addr && addr
            <= 0x0fff && inv) {
            (self.chr_banks_1k[3], false)
        } else {
            return 0;
        };
        proof {
            if addr < 0x2000 {
                assert(addr ^ 0x1000 == (if addr < 0x1000 { addr + 0x1000 } else { addr - 0x1000 }))
                    by (bit_vector)
                    requires
                        addr < 0x2000,
                ;
            }
        }
        if two_kb {
            self.rom.chr[bank as usize * 1024 + (addr & 0x7ff) as usize]
        } else {
            self.rom.chr[bank as usize * 1024 + (addr & 0x3ff) as usize]
        }
    }

    fn chr_storeb(&mut self, addr: u16, val: u8) {
        // TODO: CHR-RAM
    }

    fn next_scanline(&mut self) -> (r: MapperResult) {
        if self.scanline_counter != 0 {
            self.scanline_counter = self.scanline_counter - 1;
            if self.scanline_counter == 0 {
                self.scanline_counter = self.irq_reload;
                if self.irq_enabled {
                    return MapperResult::Irq;
                }
            }
        }
        MapperResult::Continue
    }
}

//
// The mapper of a cartridge
//

/// One of the supported mappers.
pub enum AnyMapper {
    Nrom(Nrom),
    SxRom(SxRom),
    TxRom(TxRom),
}

/// Whether `create_mapper` supports the iNES mapper number: NROM (0), SxROM (1), TxROM (4).
pub open spec fn supported_mapper(ines_mapper: u8) -> bool {
    ines_mapper == 0 || ines_mapper == 1 || ines_mapper == 4
}

/// Builds the mapper that the ROM's header names.
pub fn create_mapper(rom: Rom) -> (m: AnyMapper)
    requires
        supported_mapper(rom.header.flags_6 / 16),
    ensures
        rom.header.flags_6 / 16 == 0 ==> m == AnyMapper::Nrom(Nrom { rom: rom }),
        rom.header.flags_6 / 16 == 1 ==> (m matches AnyMapper::SxRom(s) && s.rom() == rom
            && s.regs() == (SxRegs { ctrl: SxCtrl(0x0c), chr_bank_0: 0, chr_bank_1: 0, prg_bank: 0 })
            && s.accum() == 0 && s.write_count() == 0),
        rom.header.flags_6 / 16 == 4 ==> (m matches AnyMapper::TxRom(t) && t.rom == rom
            && t.regs.bank_select.0 == 0 && t.chr_banks_2k@ == seq![0u8, 0]
            && t.chr_banks_1k@ == seq![0u8, 0, 0, 0] && t.prg_banks@ == seq![0u8, 0]
            && t.scanline_counter == 0 && t.irq_reload == 0 && !t.irq_enabled
            && forall|i: int| 0 <= i < 8192 ==> t.prg_ram@[i] == 0),
        rom.header.flags_6 / 16 == 1 ==> (m matches AnyMapper::SxRom(s)
            && forall|i: int| 0 <= i < 8192 ==> s.chr_ram()[i] == 0),
{
    let m = rom.header.ines_mapper();
    if m == 0 {
        AnyMapper::Nrom(Nrom { rom: rom })
    } else if m == 1 {
        AnyMapper::SxRom(SxRom::new(rom))
    } else {
        AnyMapper::TxRom(TxRom::new(rom))
    }
}

impl Mapper for AnyMapper {
    open spec fn prg_load_spec(&self, addr: u16) -> Option<u8> {
        match self {
            AnyMapper::Nrom(m) => m.prg_load_spec(addr),
            AnyMapper::SxRom(m) => m.prg_load_spec(addr),
            AnyMapper::TxRom(m) => m.prg_load_spec(addr),
        }
    }

    open spec fn prg_store_spec(&self, addr: u16, val: u8) -> Self {
        match self {
            AnyMapper::Nrom(m) => AnyMapper::Nrom(m.prg_store_spec(addr, val)),
            AnyMapper::SxRom(m) => AnyMapper::SxRom(m.prg_store_spec(addr, val)),
            AnyMapper::TxRom(m) => AnyMapper::TxRom(m.prg_store_spec(addr, val)),
        }
    }

    open spec fn chr_load_spec(&self, addr: u16) -> Option<u8> {
        match self {
            AnyMapper::Nrom(m) => m.chr_load_spec(addr),
            AnyMapper::SxRom(m) => m.chr_load_spec(addr),
            AnyMapper::TxRom(m) => m.chr_load_spec(addr),
        }
    }

    open spec fn chr_store_spec(&self, addr: u16, val: u8) -> Self {
        match self {
            AnyMapper::Nrom(m) => AnyMapper::Nrom(m.chr_store_spec(addr, val)),
            AnyMapper::SxRom(m) => AnyMapper::SxRom(m.chr_store_spec(addr, val)),
            AnyMapper::TxRom(m) => AnyMapper::TxRom(m.chr_store_spec(addr, val)),
        }
    }

    open spec fn next_scanline_spec(&self) -> (Self, MapperResult) {
        match self {
            AnyMapper::Nrom(m) => (AnyMapper::Nrom(m.next_scanline_spec().0), m.next_scanline_spec().1),
            AnyMapper::SxRom(m) => (AnyMapper::SxRom(m.next_scanline_spec().0), m.next_scanline_spec().1),
            AnyMapper::TxRom(m) => (AnyMapper::TxRom(m.next_scanline_spec().0), m.next_scanline_spec().1),
        }
    }

    fn prg_loadb(&mut self, addr: u16) -> (val: u8) {
        match self {
            AnyMapper::Nrom(m) => m.prg_loadb(addr),
            AnyMapper::SxRom(m) => m.prg_loadb(addr),
            AnyMapper::TxRom(m) => m.prg_loadb(addr),
        }
    }

    fn prg_storeb(&mut self, addr: u16, val: u8) {
        match self {
            AnyMapper::Nrom(m) => m.prg_storeb(addr, val),
            AnyMapper::SxRom(m) => m.prg_storeb(addr, val),
            AnyMapper::TxRom(m) => m.prg_storeb(addr, val),
        }
    }

    fn chr_loadb(&mut self, addr: u16) -> (val: u8) {
        match self {
            AnyMapper::Nrom(m) => m.chr_loadb(addr),
            AnyMapper::SxRom(m) => m.chr_loadb(addr),
            AnyMapper::TxRom(m) => m.chr_loadb(addr),
        }
    }

    fn chr_storeb(&mut self, addr: u16, val: u8) {
        match self {
            AnyMapper::Nrom(m) => m.chr_storeb(addr, val),
            AnyMapper::SxRom(m) => m.chr_storeb(addr, val),
            AnyMapper::TxRom(m) => m.chr_storeb(addr, val),
        }
    }

    fn next_scanline(&mut self) -> (r: MapperResult) {
        match self {
            AnyMapper::Nrom(m) => m.next_scanline(),
            AnyMapper::SxRom(m) => m.next_scanline(),
            AnyMapper::TxRom(m) => m.next_scanline(),
        }
    }
}


//
// Laws of the MMC1 serial port
//

/// The register that a five-bit value written through the MMC1 serial port lands in: the
/// address of the fifth write picks it.
pub open spec fn sx_register_load(regs: SxRegs, addr: u16, value: u8) -> SxRegs {
    if addr <= 0x9fff {
        SxRegs { ctrl: SxCtrl(value), ..regs }
    } else if addr <= 0xbfff {
        SxRegs { chr_bank_0: value, ..regs }
    } else if addr <= 0xdfff {
        SxRegs { chr_bank_1: value, ..regs }
    } else {
        SxRegs { prg_bank: value, ..regs }
    }
}

/// The MMC1 takes its registers five bits at a time: from an empty shift register, five
/// writes at $8000 and up with bit 7 clear shift in bit 0 of each value, first write lowest,
/// and the fifth write stores the result in the register that its address selects
/// ($8000-$9FFF control, $A000-$BFFF CHR bank 0, $C000-$DFFF CHR bank 1, $E000-$FFFF PRG
/// bank).  The shift register is empty again and nothing else changes.
pub proof fn lemma_sxrom_serial_load(
    m: SxRom,
    a0: u16, a1: u16, a2: u16, a3: u16, a4: u16,
    v0: u8, v1: u8, v2: u8, v3: u8, v4: u8,
)
    requires
        m.write_count() == 0,
        m.accum() == 0,
        a0 >= 0x8000 && a1 >= 0x8000 && a2 >= 0x8000 && a3 >= 0x8000 && a4 >= 0x8000,
        v0 < 0x80 && v1 < 0x80 && v2 < 0x80 && v3 < 0x80 && v4 < 0x80,
    ensures
        ({
            let m5 = m.prg_store_spec(a0, v0).prg_store_spec(a1, v1).prg_store_spec(a2, v2)
                .prg_store_spec(a3, v3).prg_store_spec(a4, v4);
            let value = (v0 % 2 + 2 * (v1 % 2) + 4 * (v2 % 2) + 8 * (v3 % 2) + 16 * (v4 % 2)) as u8;
            &&& m5.write_count() == 0
            &&& m5.accum() == 0
            &&& m5.rom() == m.rom()
            &&& m5.chr_ram() == m.chr_ram()
            &&& m5.prg_ram() == m.prg_ram()
            &&& m5.regs() == sx_register_load(m.regs(), a4, value)
        }),
{
}

/// A write at $8000 and up with bit 7 set empties the MMC1 shift register and sets the PRG
/// mode bits of the control register (fixing the last bank at $C000); the banks are kept.
pub proof fn lemma_sxrom_reset(m: SxRom, addr: u16, val: u8)
    requires
        addr >= 0x8000,
        val >= 0x80,
    ensures
        ({
            let m1 = m.prg_store_spec(addr, val);
            &&& m1.write_count() == 0
            &&& m1.accum() == 0
            &&& m1.regs() == (SxRegs { ctrl: SxCtrl(m.regs().ctrl.0 | 0x0c), ..m.regs() })
            &&& m1.rom() == m.rom() && m1.chr_ram() == m.chr_ram() && m1.prg_ram() == m.prg_ram()
        }),
{
}


/// NROM with a single 16K PRG bank shows it twice: $C000-$FFFF reads what $8000-$BFFF reads.
pub proof fn lemma_nrom_mirror(m: Nrom, addr: u16)
    requires
        m.rom.prg@.len() == 16384,
        0x8000 <= addr < 0xc000,
    ensures
        m.prg_load_spec((addr + 0x4000) as u16) == m.prg_load_spec(addr),
        m.prg_load_spec(addr) == Some(m.rom.prg@[addr - 0x8000]),
{
}


/// One write to the MMC1.  Below $8000 nothing changes.  From $8000 on the ROM, CHR-RAM and
/// PRG-RAM are kept, and: a value with bit 7 set empties the shift register and sets the PRG
/// mode bits of the control register; otherwise bit 0 of the value is shifted in at position
/// `write_count`, and the fifth bit loads the register that the address selects and empties
/// the shift register.
pub proof fn lemma_sxrom_write(m: SxRom, addr: u16, val: u8)
    ensures
        ({
            let m1 = m.prg_store_spec(addr, val);
            &&& addr < 0x8000 ==> m1 == m
            &&& addr >= 0x8000 ==> m1.rom() == m.rom() && m1.chr_ram() == m.chr_ram()
                && m1.prg_ram() == m.prg_ram()
            &&& addr >= 0x8000 && val >= 0x80 ==> m1.write_count() == 0 && m1.accum() == 0
                && m1.regs() == (SxRegs { ctrl: SxCtrl(m.regs().ctrl.0 | 0x0c), ..m.regs() })
            &&& addr >= 0x8000 && val < 0x80 && m.write_count() < 4 ==> m1.write_count()
                == m.write_count() + 1 && m1.accum() == (m.accum() + (val % 2) * pow2_5(
                m.write_count(),
            )) as u8 && m1.regs() == m.regs()
            &&& addr >= 0x8000 && val < 0x80 && m.write_count() == 4 ==> m1.write_count() == 0
                && m1.accum() == 0 && m1.regs() == sx_register_load(
                m.regs(),
                addr,
                (m.accum() + (val % 2) * 16) as u8,
            )
        }),
{
}


//
// Laws of the MMC3 CHR banks
//

/// Where the bank register `r` (R0-R5) shows its CHR bank: R0 and R1 the 2K windows at $0000
/// and $0800, R2-R5 the 1K windows at $1000, $1400, $1800 and $1C00; with the A12 inversion
/// (bit 7 of the bank select) the two halves of the pattern space trade places.
pub open spec fn tx_chr_window(r: int, inverted: bool) -> int {
    let base = if r < 2 { r * 0x800 } else { 0x1000 + (r - 2) * 0x400 };
    if inverted {
        if base < 0x1000 { base + 0x1000 } else { base - 0x1000 }
    } else {
        base
    }
}

/// Selecting bank register `r` (with or without the A12 inversion) at $8000 and writing bank
/// number `v` at $8001 makes the window of `r` read CHR-ROM from `v * 1024` on: the byte `k`
/// of the window is the byte `v * 1024 + k` of the CHR-ROM.
pub proof fn lemma_txrom_chr_bank(m: TxRom, r: u8, inverted: bool, v: u8, k: int)
    requires
        r < 6,
        0 <= k < (if r < 2 { 0x800int } else { 0x400 }),
    ensures
        ({
            let sel = if inverted { (r + 0x80) as u8 } else { r };
            let m2 = m.prg_store_spec(0x8000, sel).prg_store_spec(0x8001, v);
            m2.chr_load_spec((tx_chr_window(r as int, inverted) + k) as u16) == byte_at(m.rom.chr@, v * 1024 + k)
        }),
{
    let sel = if inverted { (r + 0x80) as u8 } else { r };
    let m2 = m.prg_store_spec(0x8000, sel).prg_store_spec(0x8001, v);
    let addr = (tx_chr_window(r as int, inverted) + k) as u16;
    assert(addr < 0x2000 ==> addr ^ 0x1000 == (if addr < 0x1000 { addr + 0x1000 } else { addr - 0x1000 })) by (bit_vector);
    assert(m2.regs.bank_select.0 == sel);
    assert(sel % 8 == r);
    if r < 2 {
        assert(m2.chr_banks_2k@[r as int] == v);
    } else {
        assert(m2.chr_banks_1k@[r - 2] == v);
    }
}

} // verus!
