use vstd::prelude::*;

use crate::apu::Apu;
use crate::input::Input;
use crate::mapper::Mapper;
use crate::ppu::{Ppu, Vram};
use crate::util::Save;

verus! {

/// An integer taken modulo 2^16, as the 16-bit address arithmetic of the machine wraps.
pub open spec fn wrap16(x: int) -> u16 {
    (x % 0x10000) as u16
}

/// An integer taken modulo 2^8.
pub open spec fn wrap8(x: int) -> u8 {
    (x % 0x100) as u8
}

/// `wrap8` on the range that byte arithmetic reaches.
pub broadcast proof fn lemma_wrap8(x: int)
    requires
        -0x100 <= x < 0x200,
    ensures
        #[trigger] wrap8(x) == (if x < 0 { x + 0x100 } else if x >= 0x100 { x - 0x100 } else { x }),
{
}

/// `wrap16` on the range that address arithmetic reaches.
pub broadcast proof fn lemma_wrap16(x: int)
    requires
        -0x10000 <= x < 0x20000,
    ensures
        #[trigger] wrap16(x) == (if x < 0 { x + 0x10000 } else if x >= 0x10000 { x - 0x10000 } else { x }),
{
}

/// The basic memory interface shared by the CPU's address space and the devices on it.
///
/// A load may change the device (reading a PPU or controller register has side effects), so
/// its model gives both the device state after the read and the value read.  `None` marks an
/// access that the device cannot serve.
pub trait Mem: Sized {
    spec fn load_spec(&self, addr: u16) -> Option<(Self, u8)>;

    spec fn store_spec(&self, addr: u16, val: u8) -> Option<Self>;

    fn loadb(&mut self, addr: u16) -> (val: u8)
        requires
            old(self).load_spec(addr) is Some,
        ensures
            old(self).load_spec(addr) == Some((*final(self), val)),
    ;

    fn storeb(&mut self, addr: u16, val: u8)
        requires
            old(self).store_spec(addr, val) is Some,
        ensures
            old(self).store_spec(addr, val) == Some(*final(self)),
    ;
}

/// Two loads: the low byte at `addr`, then the high byte at `addr + 1`.
pub open spec fn loadw_spec<M: Mem>(m: M, addr: u16) -> Option<(M, u16)> {
    match m.load_spec(addr) {
        Some((m1, lo)) => match m1.load_spec(wrap16(addr + 1)) {
            Some((m2, hi)) => Some((m2, (lo + hi * 256) as u16)),
            None => None,
        },
        None => None,
    }
}

/// Two stores: the low byte at `addr`, then the high byte at `addr + 1`.
pub open spec fn storew_spec<M: Mem>(m: M, addr: u16, val: u16) -> Option<M> {
    match m.store_spec(addr, (val % 256) as u8) {
        Some(m1) => m1.store_spec(wrap16(addr + 1), (val / 256) as u8),
        None => None,
    }
}

/// Two loads in the zero page: the low byte at `addr`, the high byte at `(addr + 1) mod 256`.
pub open spec fn loadw_zp_spec<M: Mem>(m: M, addr: u8) -> Option<(M, u16)> {
    match m.load_spec(addr as u16) {
        Some((m1, lo)) => match m1.load_spec(wrap8(addr + 1) as u16) {
            Some((m2, hi)) => Some((m2, (lo + hi * 256) as u16)),
            None => None,
        },
        None => None,
    }
}

/// Word-sized accesses, built from byte accesses.
pub trait MemUtil: Mem {
    /// Loads a little-endian word from `addr` and `addr + 1`.
    fn loadw(&mut self, addr: u16) -> (val: u16)
        requires
            loadw_spec(*old(self), addr) is Some,
        ensures
            loadw_spec(*old(self), addr) == Some((*final(self), val)),
    ;

    /// Stores a little-endian word at `addr` and `addr + 1`.
    fn storew(&mut self, addr: u16, val: u16)
        requires
            storew_spec(*old(self), addr, val) is Some,
        ensures
            storew_spec(*old(self), addr, val) == Some(*final(self)),
    ;

    /// Like `loadw`, but the second byte comes from the zero page: the address wraps from
    /// 0xff to 0x00.
    fn loadw_zp(&mut self, addr: u8) -> (val: u16)
        requires
            loadw_zp_spec(*old(self), addr) is Some,
        ensures
            loadw_zp_spec(*old(self), addr) == Some((*final(self), val)),
    ;
}

impl<M: Mem> MemUtil for M {
    /// Loads a little-endian word from `addr` and `addr + 1`.
    fn loadw(&mut self, addr: u16) -> (val: u16) {
        let lo = self.loadb(addr);
        let hi = self.loadb(addr.wrapping_add(1));
        let v = lo as u16 | (hi as u16) << 8u16;
        proof { crate::bits::lemma_bytes_to_word(lo, hi); }
        v
    }

    /// Stores a little-endian word at `addr` and `addr + 1`.
    fn storew(&mut self, addr: u16, val: u16) {
        let lo = (val & 0xff) as u8;
        let hi = ((val >> 8u16) & 0xff) as u8;
        proof { crate::bits::lemma_word(val); }
        self.storeb(addr, lo);
        self.storeb(addr.wrapping_add(1), hi);
    }

    /// Like `loadw`, but the second byte comes from the zero page: the address wraps from
    /// 0xff to 0x00.
    fn loadw_zp(&mut self, addr: u8) -> (val: u16) {
        let lo = self.loadb(addr as u16);
        let hi = self.loadb(addr.wrapping_add(1) as u16);
        let v = lo as u16 | (hi as u16) << 8u16;
        proof { crate::bits::lemma_bytes_to_word(lo, hi); }
        v
    }
}

//
// The NES' paltry 2KB of RAM
//

/// The 2KB of work RAM, mirrored every 0x800 bytes.
pub struct Ram {
    pub val: [u8; 0x800],
}

impl Ram {
    /// RAM filled with zeros.
    pub fn new() -> (r: Ram)
        ensures
            forall|i: int| 0 <= i < 0x800 ==> r.val@[i] == 0,
    {
        Ram { val: [0u8; 0x800] }
    }
}

impl Mem for Ram {
    /// A load reads the byte at the address modulo 0x800 and changes nothing.
    open spec fn load_spec(&self, addr: u16) -> Option<(Self, u8)> {
        Some((*self, self.val@[(addr % 0x800) as int]))
    }

    /// A store writes the byte at the address modulo 0x800.
    open spec fn store_spec(&self, addr: u16, val: u8) -> Option<Self> {
        Some(Ram { val: vstd::array::spec_array_update(self.val, (addr % 0x800) as int, val) })
    }

    fn loadb(&mut self, addr: u16) -> (val: u8) {
        let i = (addr & 0x7ff) as usize;
        proof { crate::bits::lemma_word(addr); }
        self.val[i]
    }

    fn storeb(&mut self, addr: u16, val: u8) {
        let i = (addr & 0x7ff) as usize;
        proof { crate::bits::lemma_word(addr); }
        self.val[i] = val;
    }
}

/// The 2KB as they are.
impl Save for Ram {
    open spec fn spec_saved(&self) -> Seq<u8> {
        self.val@
    }

    open spec fn spec_size(&self) -> nat {
        0x800
    }

    open spec fn spec_loaded(&self, bytes: Seq<u8>) -> Ram {
        choose|r: Ram| r.val@ == bytes.subrange(0, 0x800)
    }

    fn save(&self, out: &mut Vec<u8>) {
        let mut i: usize = 0;
        while i < 0x800
            invariant
                i <= 0x800,
                out@ == old(out)@ + self.val@.subrange(0, i as int),
            decreases 0x800 - i,
        {
            out.push(self.val[i]);
            i = i + 1;
            assert(out@ =~= old(out)@ + self.val@.subrange(0, i as int));
        }
        assert(self.val@.subrange(0, 0x800) =~= self.val@);
    }

    fn load(&mut self, input: &[u8], pos: usize) -> (next: usize) {
        let ghost bytes = input@.subrange(pos as int, pos + 0x800);
        let mut i: usize = 0;
        while i < 0x800
            invariant
                i <= 0x800,
                pos + 0x800 <= input.len(),
                bytes == input@.subrange(pos as int, pos + 0x800),
                forall|j: int| 0 <= j < i ==> self.val@[j] == bytes[j],
            decreases 0x800 - i,
        {
            self.val[i] = input[pos + i];
            i = i + 1;
        }
        let ghost loaded = old(self).spec_loaded(bytes);
        assert(self.val@ =~= bytes.subrange(0, 0x800));
        assert(self.val =~= loaded.val);
        pos + 0x800
    }
}


//
// The main CPU memory map
//

/// The CPU's address space: RAM, the PPU registers, the game pad, the APU registers and the
/// cartridge (which the PPU's VRAM holds, for its CHR banks).
pub struct MemMap {
    pub ram: Ram,
    pub ppu: Ppu,
    pub input: Input,
    pub apu: Apu,
}

impl MemMap {
    pub fn new(ppu: Ppu, input: Input, apu: Apu) -> (m: MemMap)
        ensures
            forall|i: int| 0 <= i < 0x800 ==> m.ram.val@[i] == 0,
            m.ppu == ppu,
            m.input == input,
            m.apu == apu,
    {
        MemMap { ram: Ram::new(), ppu: ppu, input: input, apu: apu }
    }

    /// The memory map with the cartridge replaced.
    pub open spec fn with_mapper(self, mapper: crate::mapper::AnyMapper) -> MemMap {
        MemMap { ppu: Ppu { vram: Vram { mapper: mapper, ..self.ppu.vram }, ..self.ppu }, ..self }
    }
}

impl Mem for MemMap {
    /// $0000-$1FFF RAM, $2000-$3FFF PPU, $4016 the pad, $4000-$4018 otherwise the APU,
    /// $4019-$5FFF reads 0, $6000-$FFFF the cartridge.
    open spec fn load_spec(&self, addr: u16) -> Option<(Self, u8)> {
        if addr < 0x2000 {
            match self.ram.load_spec(addr) {
                Some((r, v)) => Some((MemMap { ram: r, ..*self }, v)),
                None => None,
            }
        } else if addr < 0x4000 {
            match self.ppu.load_spec(addr) {
                Some((p, v)) => Some((MemMap { ppu: p, ..*self }, v)),
                None => None,
            }
        } else if addr == 0x4016 {
            match self.input.load_spec(addr) {
                Some((i, v)) => Some((MemMap { input: i, ..*self }, v)),
                None => None,
            }
        } else if addr <= 0x4018 {
            match self.apu.load_spec(addr) {
                Some((a, v)) => Some((MemMap { apu: a, ..*self }, v)),
                None => None,
            }
        } else if addr < 0x6000 {
            // FIXME: I think some mappers use regs in this area?
            Some((*self, 0))
        } else {
            match self.ppu.vram.mapper.prg_load_spec(addr) {
                Some(v) => Some((*self, v)),
                None => None,
            }
        }
    }

    open spec fn store_spec(&self, addr: u16, val: u8) -> Option<Self> {
        if addr < 0x2000 {
            match self.ram.store_spec(addr, val) {
                Some(r) => Some(MemMap { ram: r, ..*self }),
                None => None,
            }
        } else if addr < 0x4000 {
            match self.ppu.store_spec(addr, val) {
                Some(p) => Some(MemMap { ppu: p, ..*self }),
                None => None,
            }
        } else if addr == 0x4016 {
            match self.input.store_spec(addr, val) {
                Some(i) => Some(MemMap { input: i, ..*self }),
                None => None,
            }
        } else if addr <= 0x4018 {
            match self.apu.store_spec(addr, val) {
                Some(a) => Some(MemMap { apu: a, ..*self }),
                None => None,
            }
        } else if addr < 0x6000 {
            // Nothing. FIXME: I think some mappers use regs in this area?
            Some(*self)
        } else {
            Some(self.with_mapper(self.ppu.vram.mapper.prg_store_spec(addr, val)))
        }
    }

    fn loadb(&mut self, addr: u16) -> (val: u8) {
        if addr < 0x2000 {
            self.ram.loadb(addr)
        } else if addr < 0x4000 {
            self.ppu.loadb(addr)
        } else if addr == 0x4016 {
            self.input.loadb(addr)
        } else if addr <= 0x4018 {
            self.apu.loadb(addr)
        } else if addr < 0x6000 {
            0
        } else {
            self.ppu.vram.mapper.prg_loadb(addr)
        }
    }

    fn storeb(&mut self, addr: u16, val: u8) {
        if addr < 0x2000 {
            self.ram.storeb(addr, val)
        } else if addr < 0x4000 {
            self.ppu.storeb(addr, val)
        } else if addr == 0x4016 {
            self.input.storeb(addr, val)
        } else if addr <= 0x4018 {
            self.apu.storeb(addr, val)
        } else if addr < 0x6000 {
        } else {
            self.ppu.vram.mapper.prg_storeb(addr, val)
        }
    }
}

/// The RAM, then the APU.
impl Save for MemMap {
    open spec fn spec_saved(&self) -> Seq<u8> {
        self.ram.spec_saved()
            + self.apu.spec_saved()
    }

    open spec fn spec_size(&self) -> nat {
        2132
    }

    open spec fn spec_loaded(&self, bytes: Seq<u8>) -> MemMap {
        MemMap {
            ram: self.ram.spec_loaded(bytes.subrange(0, 2048)),
            apu: self.apu.spec_loaded(bytes.subrange(2048, 2132)),
            ..*self
        }
    }

    fn save(&self, out: &mut Vec<u8>) {
        self.ram.save(out);
        self.apu.save(out);
        assert(out@ =~= old(out)@ + self.spec_saved());
    }

    fn load(&mut self, input: &[u8], pos: usize) -> (next: usize) {
        let ghost bytes = input@.subrange(pos as int, pos + old(self).spec_size());
        let p0 = self.ram.load(input, pos);
        let p1 = self.apu.load(input, p0);
        assert(input@.subrange(pos + 0, pos + 2048) =~= bytes.subrange(0, 2048));
        assert(input@.subrange(pos + 2048, pos + 2132) =~= bytes.subrange(2048, 2132));
        p1
    }
}


//
// Laws of memory
//

/// RAM gives back what was stored: a load after a store to the same address reads the stored
/// byte, and a load changes nothing.
pub proof fn lemma_ram_store_load(r: Ram, addr: u16, val: u8)
    ensures
        r.store_spec(addr, val) is Some,
        r.store_spec(addr, val).unwrap().load_spec(addr) == Some((r.store_spec(addr, val).unwrap(), val)),
{
}

/// The 2KB of RAM repeat through $0000-$1FFF: addresses that agree modulo $800 read and
/// write the same byte.
pub proof fn lemma_ram_mirroring(r: Ram, a: u16, b: u16, val: u8)
    requires
        a % 0x800 == b % 0x800,
    ensures
        r.load_spec(a) == r.load_spec(b),
        r.store_spec(a, val) == r.store_spec(b, val),
{
}

/// Through the CPU's memory map, the RAM region $0000-$1FFF gives back what was stored and
/// leaves the other devices alone.
pub proof fn lemma_memmap_ram_store_load(m: MemMap, addr: u16, val: u8)
    requires
        addr < 0x2000,
    ensures
        m.store_spec(addr, val) matches Some(m2) && m2.ppu == m.ppu && m2.input == m.input
            && m2.apu == m.apu && m2.load_spec(addr) == Some((m2, val)),
{
}


/// RAM reads back from a savestate exactly as it was saved.
pub proof fn lemma_save_load_ram(r: Ram, any: Ram)
    ensures
        r.spec_saved().len() == r.spec_size(),
        any.spec_loaded(r.spec_saved()) == r,
{
    let l = any.spec_loaded(r.spec_saved());
    assert(r.val@.subrange(0, 0x800) =~= r.val@);
    assert(l.val =~= r.val);
}


/// The memory map reads back from a savestate: its RAM and, as `lemma_save_load_apu` gives it,
/// its APU; the PPU, the pad and the cartridge are those of the machine loaded into.
pub proof fn lemma_save_load_memmap(v: MemMap, any: MemMap)
    ensures
        v.spec_saved().len() == v.spec_size(),
        any.spec_loaded(v.spec_saved()) == (MemMap {
            ram: v.ram,
            apu: crate::apu::Apu {
                regs: crate::apu::restored_regs(v.apu.regs, any.apu.regs),
                cy: v.apu.cy,
                ticks: v.apu.ticks,
                ..any.apu
            },
            ..any
        }),
{
    let b = v.spec_saved();
    lemma_save_load_ram(v.ram, any.ram);
    crate::apu::lemma_save_load_apu(v.apu, any.apu);
    assert(b.subrange(0, 2048) =~= v.ram.spec_saved());
    assert(b.subrange(2048, 2132) =~= v.apu.spec_saved());
}

} // verus!
