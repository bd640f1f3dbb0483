//! An emulator core for the Nintendo Entertainment System: the 6502 CPU, the PPU, the APU,
//! the cartridge mappers, the game pad, iNES ROM images, savestates, a disassembler and the
//! status line renderer, each with its behaviour stated as contracts and proved.

use vstd::prelude::*;

pub mod bits;
pub mod mem;
pub mod util;
pub mod cpu;
pub mod disasm;
pub mod rom;
pub mod mapper;
pub mod ppu;
pub mod input;
pub mod apu;
pub mod audio;
pub mod gfx;

verus! {

} // verus!
