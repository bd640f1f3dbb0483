//! ROM images in the iNES format.

use vstd::prelude::*;
use vstd::string::StringExecFns;

use crate::disasm::{hex_digit, hex_digit_str};

verus! {

/// The 16-byte iNES header.
#[derive(Clone, Copy)]
pub struct INesHeader {
    /// 'N' 'E' 'S' '\x1a'
    pub magic: [u8; 4],
    /// number of 16K units of PRG-ROM
    pub prg_rom_size: u8,
    /// number of 8K units of CHR-ROM
    pub chr_rom_size: u8,
    /// MMMMATPA
    ///
    /// * M: Low nibble of mapper number
    /// * A: 0xx0: vertical arrangement/horizontal mirroring (CIRAM A10 = PPU A11)
    ///      0xx1: horizontal arrangement/vertical mirroring (CIRAM A10 = PPU A10)
    ///      1xxx: four-screen VRAM
    /// * T: ROM contains a trainer
    /// * P: Cartridge has persistent memory
    pub flags_6: u8,
    /// MMMMVVPU
    ///
    /// * M: High nibble of mapper number
    /// * V: If 0b10, all following flags are in NES 2.0 format
    /// * P: ROM is for the PlayChoice-10
    /// * U: ROM is for VS Unisystem
    pub flags_7: u8,
    /// number of 8K units of PRG-RAM
    pub prg_ram_size: u8,
    /// RRRRRRRT
    ///
    /// * R: Reserved (= 0)
    /// * T: 0 for NTSC, 1 for PAL
    pub flags_9: u8,
    pub flags_10: u8,
    /// always zero
    pub zero: [u8; 5],
}

impl INesHeader {
    /// Returns the mapper ID: the high nibble of flags 7 over the high nibble of flags 6.
    pub fn mapper(&self) -> (m: u8)
        ensures
            m == (self.flags_7 / 16) * 16 + self.flags_6 / 16,
    {
        let (f6, f7) = (self.flags_6, self.flags_7);
        assert((f7 & 0xf0) | (f6 >> 4u8) == (f7 / 16) * 16 + f6 / 16) by (bit_vector);
        (self.flags_7 & 0xf0) | (self.flags_6 >> 4u8)
    }

    /// Returns the low nibble of the mapper ID.
    pub fn ines_mapper(&self) -> (m: u8)
        ensures
            m == self.flags_6 / 16,
    {
        let f6 = self.flags_6;
        proof { crate::bits::lemma_byte(f6); }
        self.flags_6 >> 4u8
    }

    /// Whether the ROM contains a trainer (bit 2 of flags 6).
    pub fn trainer(&self) -> (t: bool)
        ensures
            t == ((self.flags_6 / 4) % 2 == 1),
    {
        let f6 = self.flags_6;
        proof { crate::bits::lemma_byte(f6); }
        (self.flags_6 & 0x04) != 0
    }
}

/// A number written out in decimal digits, without leading zeros.
pub open spec fn decimal(n: nat) -> Seq<char>
    decreases n,
{
    if n < 10 {
        hex_digit(n as int)
    } else {
        decimal(n / 10) + hex_digit((n % 10) as int)
    }
}

/// Appends a byte in decimal.
fn push_decimal(s: &mut String, n: u8)
    ensures
        final(s)@ == old(s)@ + decimal(n as nat),
{
    proof {
        reveal_with_fuel(decimal, 3);
    }
    if n >= 100 {
        s.append(hex_digit_str(n / 100));
        s.append(hex_digit_str((n / 10) % 10));
        s.append(hex_digit_str(n % 10));
        assert(decimal(n as nat) =~= hex_digit((n / 100) as int) + hex_digit(((n / 10) % 10) as int) + hex_digit((n % 10) as int));
    } else if n >= 10 {
        s.append(hex_digit_str(n / 10));
        s.append(hex_digit_str(n % 10));
    } else {
        s.append(hex_digit_str(n));
    }
}

/// The header as the emulator reports it when a ROM is loaded.
pub open spec fn header_text(h: INesHeader) -> Seq<char> {
    "PRG-ROM size: "@ + decimal(h.prg_rom_size as nat) + "\nCHR-ROM size: "@ + decimal(h.chr_rom_size as nat)
        + "\nMapper: "@ + decimal(((h.flags_7 / 16) * 16 + h.flags_6 / 16) as nat) + "/"@
        + decimal((h.flags_6 / 16) as nat) + "\nTrainer: "@
        + if (h.flags_6 / 4) % 2 == 1 { "Yes"@ } else { "No"@ }
}

impl INesHeader {
    /// The sizes, the mapper and whether there is a trainer, one per line.
    pub fn to_str(&self) -> (s: String)
        ensures
            s@ == header_text(*self),
    {
        let mut s = String::from_str("PRG-ROM size: ");
        push_decimal(&mut s, self.prg_rom_size);
        s.append("\nCHR-ROM size: ");
        push_decimal(&mut s, self.chr_rom_size);
        s.append("\nMapper: ");
        push_decimal(&mut s, self.mapper());
        s.append("/");
        push_decimal(&mut s, self.ines_mapper());
        s.append("\nTrainer: ");
        if self.trainer() {
            s.append("Yes");
        } else {
            s.append("No");
        }
        s
    }
}

/// Why a byte string is not a ROM image.
#[derive(Clone, Copy, PartialEq, Eq, Structural, Debug)]
pub enum RomError {
    /// The image ends before the header or the ROM banks that it announces.
    Truncated,
    /// The image does not start with "NES\x1a".
    BadMagic,
}

/// A ROM image
pub struct Rom {
    pub header: INesHeader,
    /// PRG-ROM
    pub prg: Vec<u8>,
    /// CHR-ROM
    pub chr: Vec<u8>,
}

/// The size in bytes of the PRG-ROM that a header announces.
pub open spec fn prg_len(prg_rom_size: u8) -> int {
    prg_rom_size * 16384
}

/// The size in bytes of the CHR-ROM that a header announces.
pub open spec fn chr_len(chr_rom_size: u8) -> int {
    chr_rom_size * 8192
}

/// The header that the first 16 bytes of an image describe.
pub open spec fn header_of(b: Seq<u8>) -> INesHeader {
    INesHeader {
        magic: [b[0], b[1], b[2], b[3]],
        prg_rom_size: b[4],
        chr_rom_size: b[5],
        flags_6: b[6],
        flags_7: b[7],
        prg_ram_size: b[8],
        flags_9: b[9],
        flags_10: b[10],
        zero: [0u8, 0u8, 0u8, 0u8, 0u8],
    }
}

/// The outcome of reading an image: the header, then the magic number, then the PRG-ROM
/// and the CHR-ROM banks, in that order.  Bytes after the CHR-ROM are ignored.
pub open spec fn spec_parse_rom(b: Seq<u8>) -> Result<(INesHeader, Seq<u8>, Seq<u8>), RomError> {
    if b.len() < 16 {
        Err(RomError::Truncated)
    } else if !(b[0] == 0x4e && b[1] == 0x45 && b[2] == 0x53 && b[3] == 0x1a) {
        Err(RomError::BadMagic)
    } else {
        let p = prg_len(b[4]);
        let c = chr_len(b[5]);
        if b.len() < 16 + p + c {
            Err(RomError::Truncated)
        } else {
            Ok((header_of(b), b.subrange(16, 16 + p), b.subrange(16 + p, 16 + p + c)))
        }
    }
}

/// Copies `len` bytes of `bytes` from `start`.
fn copy_range(bytes: &[u8], start: usize, len: usize) -> (v: Vec<u8>)
    requires
        start + len <= bytes.len(),
    ensures
        v@ == bytes@.subrange(start as int, start + len),
{
    let mut v: Vec<u8> = Vec::with_capacity(len);
    let mut i: usize = 0;
    while i < len
        invariant
            start + len <= bytes.len(),
            i <= len,
            v@ == bytes@.subrange(start as int, start + i),
        decreases len - i,
    {
        v.push(bytes[start + i]);
        i = i + 1;
    }
    v
}

impl Rom {
    /// Reads a ROM image from the bytes of an iNES file.
    pub fn from_bytes(bytes: &[u8]) -> (r: Result<Rom, RomError>)
        ensures
            match spec_parse_rom(bytes@) {
                Ok((h, p, c)) => r matches Ok(rom) && rom.header == h && rom.prg@ == p
                    && rom.chr@ == c,
                Err(e) => r == Err::<Rom, RomError>(e),
            },
    {
        if bytes.len() < 16 {
            return Err(RomError::Truncated);
        }
        let header = INesHeader {
            magic: [bytes[0], bytes[1], bytes[2], bytes[3]],
            prg_rom_size: bytes[4],
            chr_rom_size: bytes[5],
            flags_6: bytes[6],
            flags_7: bytes[7],
            prg_ram_size: bytes[8],
            flags_9: bytes[9],
            flags_10: bytes[10],
            zero: [0; 5],
        };
        if !(header.magic[0] == 0x4e && header.magic[1] == 0x45 && header.magic[2] == 0x53
            && header.magic[3] == 0x1a) {
            return Err(RomError::BadMagic);
        }
        let prg_size = header.prg_rom_size as usize * 16384;
        let chr_size = header.chr_rom_size as usize * 8192;
        if bytes.len() - 16 < prg_size + chr_size {
            return Err(RomError::Truncated);
        }
        let prg = copy_range(bytes, 16, prg_size);
        let chr = copy_range(bytes, 16 + prg_size, chr_size);
        let r = Rom { header: header, prg: prg, chr: chr };
        assert(r.header.magic =~= header_of(bytes@).magic);
        assert(r.header.zero =~= header_of(bytes@).zero);
        assert(r.header == header_of(bytes@));
        Ok(r)
    }
}

} // verus!
