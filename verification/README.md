# nes

An emulator core for the Nintendo Entertainment System, written in Verus: the 6502 CPU, the
PPU, the APU, the cartridge mappers (NROM, MMC1, MMC3), the game pad port, the iNES ROM
format, savestates, a disassembler and the status line font renderer.  Each function of the
library that computes or changes anything carries a contract that Verus checks against its
body; the few that do nothing (`audio::close`, `util::debug_assert`, `util::debug_print`) need
none.

## Layout

- `src/` — the verified library.
  - `cpu.rs` — the CPU: a structural model of the instruction set (`spec_decode`,
    `spec_exec`, `spec_step`) and the executable core proved to follow it; laws of the
    stack, of subroutine calls and of the arithmetic.
  - `mem.rs` — the memory interface (`Mem`, whose loads may change the device), RAM and the
    CPU's memory map.
  - `ppu.rs` — registers, VRAM, OAM, sprite evaluation and scanline rendering, modelled by
    `PpuView`.
  - `apu.rs` — the pulse, triangle and noise channels and their sample buffers, modelled by
    `ApuView`.
  - `mapper.rs` — the mappers and their bank switching; the MMC1 serial port law.
  - `input.rs` — the pad's strobe protocol and the keyboard mapping.
  - `rom.rs` — iNES parsing and the header report.
  - `disasm.rs` — instruction text.
  - `gfx.rs` — the built-in font, the status line and its animation.
  - `audio.rs` — the output buffer that the sound device drains.
  - `util.rs` — the savestate encoding (`Save`), buffer filling and the xorshift generator.
  - `bits.rs` — bit-level facts shared by the register decoders.
- `tests/` — tests of the library on concrete programs, ROM images and inputs.
- `app/` — the program around the library: argument handling, files, the SDL window,
  keyboard and sound device, the libspeexdsp resampler, and the main loop.

## Controls

A: Z, B: X, Start: Enter, Select: Right Shift, D-pad: arrows.  S saves a state to
`state.sav`, L loads it, Escape quits.
