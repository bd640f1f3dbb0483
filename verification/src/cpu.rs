//! The 6502 CPU core.

use vstd::prelude::*;

use crate::util::Save;
use crate::mem::MemMap;
use crate::mem::{Mem, MemUtil, wrap8, wrap16, loadw_spec, storew_spec, loadw_zp_spec, lemma_wrap8, lemma_wrap16};

verus! {

broadcast use {lemma_wrap8, lemma_wrap16};

//
// Constants
//

pub const CARRY_FLAG: u8 = 1 << 0;
pub const ZERO_FLAG: u8 = 1 << 1;
pub const IRQ_FLAG: u8 = 1 << 2;
pub const DECIMAL_FLAG: u8 = 1 << 3;
pub const BREAK_FLAG: u8 = 1 << 4;
pub const OVERFLOW_FLAG: u8 = 1 << 6;
pub const NEGATIVE_FLAG: u8 = 1 << 7;

pub const NMI_VECTOR: u16 = 0xfffa;
pub const RESET_VECTOR: u16 = 0xfffc;
pub const BRK_VECTOR: u16 = 0xfffe;

/// The number of cycles that each machine operation takes. Indexed by opcode number.
pub const CYCLE_TABLE: [u8; 256] = [
    /*0x00*/ 7, 6, 2, 8, 3, 3, 5, 5, 3, 2, 2, 2, 4, 4, 6, 6,
    /*0x10*/ 2, 5, 2, 8, 4, 4, 6, 6, 2, 4, 2, 7, 4, 4, 7, 7,
    /*0x20*/ 6, 6, 2, 8, 3, 3, 5, 5, 4, 2, 2, 2, 4, 4, 6, 6,
    /*0x30*/ 2, 5, 2, 8, 4, 4, 6, 6, 2, 4, 2, 7, 4, 4, 7, 7,
    /*0x40*/ 6, 6, 2, 8, 3, 3, 5, 5, 3, 2, 2, 2, 3, 4, 6, 6,
    /*0x50*/ 2, 5, 2, 8, 4, 4, 6, 6, 2, 4, 2, 7, 4, 4, 7, 7,
    /*0x60*/ 6, 6, 2, 8, 3, 3, 5, 5, 4, 2, 2, 2, 5, 4, 6, 6,
    /*0x70*/ 2, 5, 2, 8, 4, 4, 6, 6, 2, 4, 2, 7, 4, 4, 7, 7,
    /*0x80*/ 2, 6, 2, 6, 3, 3, 3, 3, 2, 2, 2, 2, 4, 4, 4, 4,
    /*0x90*/ 2, 6, 2, 6, 4, 4, 4, 4, 2, 5, 2, 5, 5, 5, 5, 5,
    /*0xA0*/ 2, 6, 2, 6, 3, 3, 3, 3, 2, 2, 2, 2, 4, 4, 4, 4,
    /*0xB0*/ 2, 5, 2, 5, 4, 4, 4, 4, 2, 4, 2, 4, 4, 4, 4, 4,
    /*0xC0*/ 2, 6, 2, 8, 3, 3, 5, 5, 2, 2, 2, 2, 4, 4, 6, 6,
    /*0xD0*/ 2, 5, 2, 8, 4, 4, 6, 6, 2, 4, 2, 7, 4, 4, 7, 7,
    /*0xE0*/ 2, 6, 3, 8, 3, 3, 5, 5, 2, 2, 2, 2, 4, 4, 6, 6,
    /*0xF0*/ 2, 5, 2, 8, 4, 4, 6, 6, 2, 4, 2, 7, 4, 4, 7, 7,
];

/// CPU registers.
#[derive(Clone, Copy, PartialEq, Eq, Structural)]
pub struct Regs {
    pub a: u8,
    pub x: u8,
    pub y: u8,
    pub s: u8,
    pub flags: u8,
    pub pc: u16,
}

impl Regs {
    pub fn new() -> (r: Regs)
        ensures
            r == (Regs { a: 0, x: 0, y: 0, s: 0xfd, flags: 0x24, pc: 0xc000 }),
    {
        Regs { a: 0, x: 0, y: 0, s: 0xfd, flags: 0x24, pc: 0xc000 }
    }
}

//
// Instruction decoding
//

/// The operations of the 6502's documented instruction set.
#[derive(Clone, Copy, PartialEq, Eq, Structural)]
pub enum Op {
    Lda, Ldx, Ldy, Sta, Stx, Sty,
    Adc, Sbc, Cmp, Cpx, Cpy,
    And, Ora, Eor, Bit,
    Rol, Ror, Asl, Lsr,
    Inc, Dec, Inx, Dex, Iny, Dey,
    Tax, Tay, Txa, Tya, Txs, Tsx,
    Clc, Sec, Cli, Sei, Clv, Cld, Sed,
    Bpl, Bmi, Bvc, Bvs, Bcc, Bcs, Bne, Beq,
    Jmp, Jmpi, Jsr, Rts, Brk, Rti,
    Pha, Pla, Php, Plp,
    Nop,
}

/// Addressing modes.  `Implied` covers the instructions that fetch their own operand bytes
/// (branches, jumps) or take none.
#[derive(Clone, Copy, PartialEq, Eq, Structural)]
pub enum Mode {
    Implied,
    Immediate,
    Accumulator,
    ZeroPage,
    ZeroPageX,
    ZeroPageY,
    Absolute,
    AbsoluteX,
    AbsoluteY,
    IndexedIndirectX,
    IndirectIndexedY,
}

/// The eight operations of the `aaabbb01` group, indexed by `aaa`.
pub open spec fn group1_op(aaa: int) -> Op {
    if aaa == 0 { Op::Ora } else if aaa == 1 { Op::And } else if aaa == 2 { Op::Eor }
    else if aaa == 3 { Op::Adc } else if aaa == 4 { Op::Sta } else if aaa == 5 { Op::Lda }
    else if aaa == 6 { Op::Cmp } else { Op::Sbc }
}

/// The eight addressing modes of the `aaabbb01` group, indexed by `bbb`.
pub open spec fn group1_mode(bbb: int) -> Mode {
    if bbb == 0 { Mode::IndexedIndirectX } else if bbb == 1 { Mode::ZeroPage }
    else if bbb == 2 { Mode::Immediate } else if bbb == 3 { Mode::Absolute }
    else if bbb == 4 { Mode::IndirectIndexedY } else if bbb == 5 { Mode::ZeroPageX }
    else if bbb == 6 { Mode::AbsoluteY } else { Mode::AbsoluteX }
}

/// The read-modify-write and X-register operations of the `aaabbb10` group, indexed by `aaa`.
pub open spec fn group2_op(aaa: int) -> Op {
    if aaa == 0 { Op::Asl } else if aaa == 1 { Op::Rol } else if aaa == 2 { Op::Lsr }
    else if aaa == 3 { Op::Ror } else if aaa == 4 { Op::Stx } else if aaa == 5 { Op::Ldx }
    else if aaa == 6 { Op::Dec } else { Op::Inc }
}

/// The `aaabbb01` group: the accumulator operations; `STA #imm` does not exist.
pub open spec fn decode_group1(aaa: int, bbb: int) -> Option<(Op, Mode)> {
    if aaa == 4 && bbb == 2 { None } else { Some((group1_op(aaa), group1_mode(bbb))) }
}

/// The `aaabbb10` group: shifts, increments and the X register.
pub open spec fn decode_group2(aaa: int, bbb: int) -> Option<(Op, Mode)> {
    if bbb == 0 {
        if aaa == 5 { Some((Op::Ldx, Mode::Immediate)) } else { None }
    } else if bbb == 2 {
        if aaa < 4 { Some((group2_op(aaa), Mode::Accumulator)) }
        else if aaa == 4 { Some((Op::Txa, Mode::Implied)) }
        else if aaa == 5 { Some((Op::Tax, Mode::Implied)) }
        else if aaa == 6 { Some((Op::Dex, Mode::Implied)) }
        else { Some((Op::Nop, Mode::Implied)) }
    } else if bbb == 4 {
        None
    } else if bbb == 6 {
        if aaa == 4 { Some((Op::Txs, Mode::Implied)) }
        else if aaa == 5 { Some((Op::Tsx, Mode::Implied)) }
        else { None }
    } else if bbb == 1 {
        Some((group2_op(aaa), Mode::ZeroPage))
    } else if bbb == 3 {
        Some((group2_op(aaa), Mode::Absolute))
    } else if bbb == 5 {
        // STX and LDX index by Y instead of X.
        if aaa == 4 || aaa == 5 { Some((group2_op(aaa), Mode::ZeroPageY)) }
        else { Some((group2_op(aaa), Mode::ZeroPageX)) }
    } else {
        if aaa == 4 { None }
        else if aaa == 5 { Some((Op::Ldx, Mode::AbsoluteY)) }
        else { Some((group2_op(aaa), Mode::AbsoluteX)) }
    }
}

/// The `aaabbb00` group: branches, flag operations, control flow, Y register, BIT.
pub open spec fn decode_group0(aaa: int, bbb: int) -> Option<(Op, Mode)> {
    if bbb == 4 {
        // Branches: `xxy10000` branches when flag `xx` equals `y`.
        Some((
            if aaa == 0 { Op::Bpl } else if aaa == 1 { Op::Bmi } else if aaa == 2 { Op::Bvc }
            else if aaa == 3 { Op::Bvs } else if aaa == 4 { Op::Bcc } else if aaa == 5 { Op::Bcs }
            else if aaa == 6 { Op::Bne } else { Op::Beq },
            Mode::Implied,
        ))
    } else if bbb == 6 {
        Some((
            if aaa == 0 { Op::Clc } else if aaa == 1 { Op::Sec } else if aaa == 2 { Op::Cli }
            else if aaa == 3 { Op::Sei } else if aaa == 4 { Op::Tya } else if aaa == 5 { Op::Clv }
            else if aaa == 6 { Op::Cld } else { Op::Sed },
            Mode::Implied,
        ))
    } else if bbb == 2 {
        Some((
            if aaa == 0 { Op::Php } else if aaa == 1 { Op::Plp } else if aaa == 2 { Op::Pha }
            else if aaa == 3 { Op::Pla } else if aaa == 4 { Op::Dey } else if aaa == 5 { Op::Tay }
            else if aaa == 6 { Op::Iny } else { Op::Inx },
            Mode::Implied,
        ))
    } else if bbb == 0 {
        if aaa == 0 { Some((Op::Brk, Mode::Implied)) }
        else if aaa == 1 { Some((Op::Jsr, Mode::Implied)) }
        else if aaa == 2 { Some((Op::Rti, Mode::Implied)) }
        else if aaa == 3 { Some((Op::Rts, Mode::Implied)) }
        else if aaa == 4 { None }
        else if aaa == 5 { Some((Op::Ldy, Mode::Immediate)) }
        else if aaa == 6 { Some((Op::Cpy, Mode::Immediate)) }
        else { Some((Op::Cpx, Mode::Immediate)) }
    } else if bbb == 1 || bbb == 3 {
        let mode = if bbb == 1 { Mode::ZeroPage } else { Mode::Absolute };
        if aaa == 0 { None }
        else if aaa == 1 { Some((Op::Bit, mode)) }
        else if aaa == 2 { if bbb == 3 { Some((Op::Jmp, Mode::Implied)) } else { None } }
        else if aaa == 3 { if bbb == 3 { Some((Op::Jmpi, Mode::Implied)) } else { None } }
        else if aaa == 4 { Some((Op::Sty, mode)) }
        else if aaa == 5 { Some((Op::Ldy, mode)) }
        else if aaa == 6 { Some((Op::Cpy, mode)) }
        else { Some((Op::Cpx, mode)) }
    } else if bbb == 5 {
        if aaa == 4 { Some((Op::Sty, Mode::ZeroPageX)) }
        else if aaa == 5 { Some((Op::Ldy, Mode::ZeroPageX)) }
        else { None }
    } else {
        if aaa == 5 { Some((Op::Ldy, Mode::AbsoluteX)) } else { None }
    }
}

/// The documented opcodes, read as `aaabbbcc`: `cc` picks the group, `aaa` the operation and
/// `bbb` the addressing mode.  `None` for the opcodes that are not implemented.
pub open spec fn spec_decode(op: u8) -> Option<(Op, Mode)> {
    let aaa = op / 32;
    let bbb = (op / 4) % 8;
    let cc = op % 4;
    if cc == 1 {
        decode_group1(aaa as int, bbb as int)
    } else if cc == 2 {
        decode_group2(aaa as int, bbb as int)
    } else if cc == 0 {
        decode_group0(aaa as int, bbb as int)
    } else {
        None
    }
}

/// Decodes an opcode into its operation and addressing mode.
pub fn decode(op: u8) -> (r: Option<(Op, Mode)>)
    ensures
        r == spec_decode(op),
{
    match op {
        0xa1 => Some((Op::Lda, Mode::IndexedIndirectX)),
        0xa5 => Some((Op::Lda, Mode::ZeroPage)),
        0xa9 => Some((Op::Lda, Mode::Immediate)),
        0xad => Some((Op::Lda, Mode::Absolute)),
        0xb1 => Some((Op::Lda, Mode::IndirectIndexedY)),
        0xb5 => Some((Op::Lda, Mode::ZeroPageX)),
        0xb9 => Some((Op::Lda, Mode::AbsoluteY)),
        0xbd => Some((Op::Lda, Mode::AbsoluteX)),
        0xa2 => Some((Op::Ldx, Mode::Immediate)),
        0xa6 => Some((Op::Ldx, Mode::ZeroPage)),
        0xb6 => Some((Op::Ldx, Mode::ZeroPageY)),
        0xae => Some((Op::Ldx, Mode::Absolute)),
        0xbe => Some((Op::Ldx, Mode::AbsoluteY)),
        0xa0 => Some((Op::Ldy, Mode::Immediate)),
        0xa4 => Some((Op::Ldy, Mode::ZeroPage)),
        0xb4 => Some((Op::Ldy, Mode::ZeroPageX)),
        0xac => Some((Op::Ldy, Mode::Absolute)),
        0xbc => Some((Op::Ldy, Mode::AbsoluteX)),
        0x85 => Some((Op::Sta, Mode::ZeroPage)),
        0x95 => Some((Op::Sta, Mode::ZeroPageX)),
        0x8d => Some((Op::Sta, Mode::Absolute)),
        0x9d => Some((Op::Sta, Mode::AbsoluteX)),
        0x99 => Some((Op::Sta, Mode::AbsoluteY)),
        0x81 => Some((Op::Sta, Mode::IndexedIndirectX)),
        0x91 => Some((Op::Sta, Mode::IndirectIndexedY)),
        0x86 => Some((Op::Stx, Mode::ZeroPage)),
        0x96 => Some((Op::Stx, Mode::ZeroPageY)),
        0x8e => Some((Op::Stx, Mode::Absolute)),
        0x84 => Some((Op::Sty, Mode::ZeroPage)),
        0x94 => Some((Op::Sty, Mode::ZeroPageX)),
        0x8c => Some((Op::Sty, Mode::Absolute)),
        0x69 => Some((Op::Adc, Mode::Immediate)),
        0x65 => Some((Op::Adc, Mode::ZeroPage)),
        0x75 => Some((Op::Adc, Mode::ZeroPageX)),
        0x6d => Some((Op::Adc, Mode::Absolute)),
        0x7d => Some((Op::Adc, Mode::AbsoluteX)),
        0x79 => Some((Op::Adc, Mode::AbsoluteY)),
        0x61 => Some((Op::Adc, Mode::IndexedIndirectX)),
        0x71 => Some((Op::Adc, Mode::IndirectIndexedY)),
        0xe9 => Some((Op::Sbc, Mode::Immediate)),
        0xe5 => Some((Op::Sbc, Mode::ZeroPage)),
        0xf5 => Some((Op::Sbc, Mode::ZeroPageX)),
        0xed => Some((Op::Sbc, Mode::Absolute)),
        0xfd => Some((Op::Sbc, Mode::AbsoluteX)),
        0xf9 => Some((Op::Sbc, Mode::AbsoluteY)),
        0xe1 => Some((Op::Sbc, Mode::IndexedIndirectX)),
        0xf1 => Some((Op::Sbc, Mode::IndirectIndexedY)),
        0xc9 => Some((Op::Cmp, Mode::Immediate)),
        0xc5 => Some((Op::Cmp, Mode::ZeroPage)),
        0xd5 => Some((Op::Cmp, Mode::ZeroPageX)),
        0xcd => Some((Op::Cmp, Mode::Absolute)),
        0xdd => Some((Op::Cmp, Mode::AbsoluteX)),
        0xd9 => Some((Op::Cmp, Mode::AbsoluteY)),
        0xc1 => Some((Op::Cmp, Mode::IndexedIndirectX)),
        0xd1 => Some((Op::Cmp, Mode::IndirectIndexedY)),
        0xe0 => Some((Op::Cpx, Mode::Immediate)),
        0xe4 => Some((Op::Cpx, Mode::ZeroPage)),
        0xec => Some((Op::Cpx, Mode::Absolute)),
        0xc0 => Some((Op::Cpy, Mode::Immediate)),
        0xc4 => Some((Op::Cpy, Mode::ZeroPage)),
        0xcc => Some((Op::Cpy, Mode::Absolute)),
        0x29 => Some((Op::And, Mode::Immediate)),
        0x25 => Some((Op::And, Mode::ZeroPage)),
        0x35 => Some((Op::And, Mode::ZeroPageX)),
        0x2d => Some((Op::And, Mode::Absolute)),
        0x3d => Some((Op::And, Mode::AbsoluteX)),
        0x39 => Some((Op::And, Mode::AbsoluteY)),
        0x21 => Some((Op::And, Mode::IndexedIndirectX)),
        0x31 => Some((Op::And, Mode::IndirectIndexedY)),
        0x09 => Some((Op::Ora, Mode::Immediate)),
        0x05 => Some((Op::Ora, Mode::ZeroPage)),
        0x15 => Some((Op::Ora, Mode::ZeroPageX)),
        0x0d => Some((Op::Ora, Mode::Absolute)),
        0x1d => Some((Op::Ora, Mode::AbsoluteX)),
        0x19 => Some((Op::Ora, Mode::AbsoluteY)),
        0x01 => Some((Op::Ora, Mode::IndexedIndirectX)),
        0x11 => Some((Op::Ora, Mode::IndirectIndexedY)),
        0x49 => Some((Op::Eor, Mode::Immediate)),
        0x45 => Some((Op::Eor, Mode::ZeroPage)),
        0x55 => Some((Op::Eor, Mode::ZeroPageX)),
        0x4d => Some((Op::Eor, Mode::Absolute)),
        0x5d => Some((Op::Eor, Mode::AbsoluteX)),
        0x59 => Some((Op::Eor, Mode::AbsoluteY)),
        0x41 => Some((Op::Eor, Mode::IndexedIndirectX)),
        0x51 => Some((Op::Eor, Mode::IndirectIndexedY)),
        0x24 => Some((Op::Bit, Mode::ZeroPage)),
        0x2c => Some((Op::Bit, Mode::Absolute)),
        0x2a => Some((Op::Rol, Mode::Accumulator)),
        0x26 => Some((Op::Rol, Mode::ZeroPage)),
        0x36 => Some((Op::Rol, Mode::ZeroPageX)),
        0x2e => Some((Op::Rol, Mode::Absolute)),
        0x3e => Some((Op::Rol, Mode::AbsoluteX)),
        0x6a => Some((Op::Ror, Mode::Accumulator)),
        0x66 => Some((Op::Ror, Mode::ZeroPage)),
        0x76 => Some((Op::Ror, Mode::ZeroPageX)),
        0x6e => Some((Op::Ror, Mode::Absolute)),
        0x7e => Some((Op::Ror, Mode::AbsoluteX)),
        0x0a => Some((Op::Asl, Mode::Accumulator)),
        0x06 => Some((Op::Asl, Mode::ZeroPage)),
        0x16 => Some((Op::Asl, Mode::ZeroPageX)),
        0x0e => Some((Op::Asl, Mode::Absolute)),
        0x1e => Some((Op::Asl, Mode::AbsoluteX)),
        0x4a => Some((Op::Lsr, Mode::Accumulator)),
        0x46 => Some((Op::Lsr, Mode::ZeroPage)),
        0x56 => Some((Op::Lsr, Mode::ZeroPageX)),
        0x4e => Some((Op::Lsr, Mode::Absolute)),
        0x5e => Some((Op::Lsr, Mode::AbsoluteX)),
        0xe6 => Some((Op::Inc, Mode::ZeroPage)),
        0xf6 => Some((Op::Inc, Mode::ZeroPageX)),
        0xee => Some((Op::Inc, Mode::Absolute)),
        0xfe => Some((Op::Inc, Mode::AbsoluteX)),
        0xc6 => Some((Op::Dec, Mode::ZeroPage)),
        0xd6 => Some((Op::Dec, Mode::ZeroPageX)),
        0xce => Some((Op::Dec, Mode::Absolute)),
        0xde => Some((Op::Dec, Mode::AbsoluteX)),
        0xe8 => Some((Op::Inx, Mode::Implied)),
        0xca => Some((Op::Dex, Mode::Implied)),
        0xc8 => Some((Op::Iny, Mode::Implied)),
        0x88 => Some((Op::Dey, Mode::Implied)),
        0xaa => Some((Op::Tax, Mode::Implied)),
        0xa8 => Some((Op::Tay, Mode::Implied)),
        0x8a => Some((Op::Txa, Mode::Implied)),
        0x98 => Some((Op::Tya, Mode::Implied)),
        0x9a => Some((Op::Txs, Mode::Implied)),
        0xba => Some((Op::Tsx, Mode::Implied)),
        0x18 => Some((Op::Clc, Mode::Implied)),
        0x38 => Some((Op::Sec, Mode::Implied)),
        0x58 => Some((Op::Cli, Mode::Implied)),
        0x78 => Some((Op::Sei, Mode::Implied)),
        0xb8 => Some((Op::Clv, Mode::Implied)),
        0xd8 => Some((Op::Cld, Mode::Implied)),
        0xf8 => Some((Op::Sed, Mode::Implied)),
        0x10 => Some((Op::Bpl, Mode::Implied)),
        0x30 => Some((Op::Bmi, Mode::Implied)),
        0x50 => Some((Op::Bvc, Mode::Implied)),
        0x70 => Some((Op::Bvs, Mode::Implied)),
        0x90 => Some((Op::Bcc, Mode::Implied)),
        0xb0 => Some((Op::Bcs, Mode::Implied)),
        0xd0 => Some((Op::Bne, Mode::Implied)),
        0xf0 => Some((Op::Beq, Mode::Implied)),
        0x4c => Some((Op::Jmp, Mode::Implied)),
        0x6c => Some((Op::Jmpi, Mode::Implied)),
        0x20 => Some((Op::Jsr, Mode::Implied)),
        0x60 => Some((Op::Rts, Mode::Implied)),
        0x00 => Some((Op::Brk, Mode::Implied)),
        0x40 => Some((Op::Rti, Mode::Implied)),
        0x48 => Some((Op::Pha, Mode::Implied)),
        0x68 => Some((Op::Pla, Mode::Implied)),
        0x08 => Some((Op::Php, Mode::Implied)),
        0x28 => Some((Op::Plp, Mode::Implied)),
        0xea => Some((Op::Nop, Mode::Implied)),
        _ => None,
    }
}


//
// The model of execution
//

/// The two's-complement reading of a byte.
pub open spec fn signed(v: u8) -> int {
    if v < 128 { v as int } else { v - 256 }
}

/// `flags` with the bits of `flag` set when `on` and cleared otherwise.
pub open spec fn with_flag(flags: u8, flag: u8, on: bool) -> u8 {
    if on { flags | flag } else { flags & !flag }
}

/// `flags` with Z and N describing `val`: Z when it is zero, N when its top bit is set.
pub open spec fn with_zn(flags: u8, val: u8) -> u8 {
    with_flag(with_flag(flags, ZERO_FLAG, val == 0), NEGATIVE_FLAG, val >= 0x80)
}

/// The status byte that a pull (PLP, RTI) installs: the byte pulled, with the unused bit 5
/// set and the break bit 4 cleared.
pub open spec fn pulled_flags(val: u8) -> u8 {
    (val | 0x20) & !0x10u8
}

/// Where an instruction reads its operand and writes its result.
#[derive(Clone, Copy, PartialEq, Eq, Structural)]
pub enum Operand {
    /// No operand.
    Implied,
    /// The accumulator.
    Accumulator,
    /// The byte that follows the opcode; it is fetched when the operand is read.
    Immediate,
    /// A memory address.
    Memory(u16),
}

/// Cycles, counted from power-on.
pub type Cycles = u64;

/// The main CPU structure definition.
pub struct Cpu<M: Mem> {
    pub cy: Cycles,
    pub regs: Regs,
    pub mem: M,
}

impl<M: Mem> Cpu<M> {
    pub open spec fn with_regs(self, regs: Regs) -> Self {
        Cpu { cy: self.cy, regs: regs, mem: self.mem }
    }

    pub open spec fn with_mem(self, mem: M) -> Self {
        Cpu { cy: self.cy, regs: self.regs, mem: mem }
    }

    pub open spec fn with_pc(self, pc: u16) -> Self {
        self.with_regs(Regs { pc: pc, ..self.regs })
    }

    pub open spec fn with_flags(self, flags: u8) -> Self {
        self.with_regs(Regs { flags: flags, ..self.regs })
    }

    pub open spec fn flag(self, flag: u8) -> bool {
        self.regs.flags & flag != 0
    }

    /// OAM DMA: `n` bytes copied from `addr` onwards to OAMDATA ($2004), two cycles each.
    pub open spec fn spec_dma_loop(self, addr: int, n: nat) -> Option<Self>
        decreases n,
    {
        if n == 0 {
            Some(self)
        } else {
            match self.mem.load_spec(addr as u16) {
                Some((m1, v)) => match m1.store_spec(0x2004, v) {
                    Some(m2) => if self.cy + 2 <= u64::MAX {
                        Cpu { cy: (self.cy + 2) as u64, regs: self.regs, mem: m2 }.spec_dma_loop(
                            addr + 1,
                            (n - 1) as nat,
                        )
                    } else {
                        None
                    },
                    None => None,
                },
                None => None,
            }
        }
    }

    /// OAM DMA from page `hi`: the 256 bytes at `hi * 256 ..` go to OAMDATA, two cycles each.
    pub open spec fn spec_dma(self, hi: u8) -> Option<Self> {
        self.spec_dma_loop(hi * 256, 256)
    }

    //
    // Fetching and the stack
    //

    /// Loads the byte at the program counter and moves the program counter past it.
    pub open spec fn spec_fetch8(self) -> Option<(Self, u8)> {
        match self.load_spec(self.regs.pc) {
            Some((c, v)) => Some((c.with_pc(wrap16(self.regs.pc + 1)), v)),
            None => None,
        }
    }

    /// Loads the little-endian word at the program counter and moves past it.
    pub open spec fn spec_fetch16(self) -> Option<(Self, u16)> {
        match loadw_spec(self, self.regs.pc) {
            Some((c, v)) => Some((c.with_pc(wrap16(self.regs.pc + 2)), v)),
            None => None,
        }
    }

    /// Pushes a byte at $0100 + S, then decrements S.
    pub open spec fn spec_pushb(self, val: u8) -> Option<Self> {
        match self.store_spec((0x100 + self.regs.s) as u16, val) {
            Some(c) => Some(c.with_regs(Regs { s: wrap8(self.regs.s - 1), ..c.regs })),
            None => None,
        }
    }

    /// Pushes a word at $0100 + (S - 1), then takes 2 from S.
    pub open spec fn spec_pushw(self, val: u16) -> Option<Self> {
        match storew_spec(self, (0x100 + wrap8(self.regs.s - 1)) as u16, val) {
            Some(c) => Some(c.with_regs(Regs { s: wrap8(self.regs.s - 2), ..c.regs })),
            None => None,
        }
    }

    /// Pulls the byte at $0100 + S + 1, then increments S.
    pub open spec fn spec_popb(self) -> Option<(Self, u8)> {
        match self.load_spec((0x100 + self.regs.s + 1) as u16) {
            Some((c, v)) => Some((c.with_regs(Regs { s: wrap8(self.regs.s + 1), ..c.regs }), v)),
            None => None,
        }
    }

    /// Pulls the word at $0100 + S + 1, then adds 2 to S.
    pub open spec fn spec_popw(self) -> Option<(Self, u16)> {
        match loadw_spec(self, (0x100 + self.regs.s + 1) as u16) {
            Some((c, v)) => Some((c.with_regs(Regs { s: wrap8(self.regs.s + 2), ..c.regs }), v)),
            None => None,
        }
    }

    //
    // Operands
    //

    /// Computes the operand of an addressing mode, fetching the bytes that follow the opcode.
    pub open spec fn spec_operand(self, mode: Mode) -> Option<(Self, Operand)> {
        match mode {
            Mode::Implied => Some((self, Operand::Implied)),
            Mode::Immediate => Some((self, Operand::Immediate)),
            Mode::Accumulator => Some((self, Operand::Accumulator)),
            Mode::ZeroPage => match self.spec_fetch8() {
                Some((c, v)) => Some((c, Operand::Memory(v as u16))),
                None => None,
            },
            Mode::ZeroPageX => match self.spec_fetch8() {
                Some((c, v)) => Some((c, Operand::Memory(wrap8(v + c.regs.x) as u16))),
                None => None,
            },
            Mode::ZeroPageY => match self.spec_fetch8() {
                Some((c, v)) => Some((c, Operand::Memory(wrap8(v + c.regs.y) as u16))),
                None => None,
            },
            Mode::Absolute => match self.spec_fetch16() {
                Some((c, v)) => Some((c, Operand::Memory(v))),
                None => None,
            },
            Mode::AbsoluteX => match self.spec_fetch16() {
                Some((c, v)) => Some((c, Operand::Memory(wrap16(v + c.regs.x)))),
                None => None,
            },
            Mode::AbsoluteY => match self.spec_fetch16() {
                Some((c, v)) => Some((c, Operand::Memory(wrap16(v + c.regs.y)))),
                None => None,
            },
            Mode::IndexedIndirectX => match self.spec_fetch8() {
                Some((c, v)) => match loadw_zp_spec(c, wrap8(v + c.regs.x)) {
                    Some((c2, addr)) => Some((c2, Operand::Memory(addr))),
                    None => None,
                },
                None => None,
            },
            Mode::IndirectIndexedY => match self.spec_fetch8() {
                Some((c, v)) => match loadw_zp_spec(c, v) {
                    Some((c2, addr)) => Some((c2, Operand::Memory(wrap16(addr + c2.regs.y)))),
                    None => None,
                },
                None => None,
            },
        }
    }

    /// Reads an operand.
    pub open spec fn spec_read(self, opd: Operand) -> Option<(Self, u8)> {
        match opd {
            Operand::Accumulator => Some((self, self.regs.a)),
            Operand::Immediate => self.spec_fetch8(),
            Operand::Memory(addr) => self.load_spec(addr),
            Operand::Implied => None,
        }
    }

    /// Writes an operand; the immediate operand cannot be written.
    pub open spec fn spec_write(self, opd: Operand, val: u8) -> Option<Self> {
        match opd {
            Operand::Accumulator => Some(self.with_regs(Regs { a: val, ..self.regs })),
            Operand::Memory(addr) => self.store_spec(addr, val),
            _ => None,
        }
    }

    //
    // Instructions
    //

    /// Reads the operand into a register chosen by `op` (LDA, LDX, LDY) and sets Z and N.
    pub open spec fn spec_load_reg(self, op: Op, opd: Operand) -> Option<Self> {
        match self.spec_read(opd) {
            Some((c, v)) => {
                let f = with_zn(c.regs.flags, v);
                Some(c.with_regs(
                    if op == Op::Lda { Regs { a: v, flags: f, ..c.regs } }
                    else if op == Op::Ldx { Regs { x: v, flags: f, ..c.regs } }
                    else { Regs { y: v, flags: f, ..c.regs } },
                ))
            },
            None => None,
        }
    }

    /// A = A + v + C; C is the carry out of bit 7, V tells that the sum of the operands read
    /// as signed bytes is out of the range of a signed byte.
    pub open spec fn spec_add_value(self, v: u8) -> Self {
        let a = self.regs.a;
        let cin: int = if self.flag(CARRY_FLAG) { 1 } else { 0 };
        let sum = a + v + cin;
        let ssum = signed(a) + signed(v) + cin;
        let r = wrap8(sum);
        let f = with_flag(self.regs.flags, CARRY_FLAG, sum > 0xff);
        let f = with_flag(f, OVERFLOW_FLAG, ssum < -128 || ssum > 127);
        self.with_regs(Regs { a: r, flags: with_zn(f, r), ..self.regs })
    }

    /// A = A - v - (1 - C); C tells that no borrow was needed, V that the signed difference is
    /// out of the range of a signed byte.
    pub open spec fn spec_sub_value(self, v: u8) -> Self {
        let a = self.regs.a;
        let borrow: int = if self.flag(CARRY_FLAG) { 0 } else { 1 };
        let diff = a - v - borrow;
        let sdiff = signed(a) - signed(v) - borrow;
        let r = wrap8(diff);
        let f = with_flag(self.regs.flags, CARRY_FLAG, diff >= 0);
        let f = with_flag(f, OVERFLOW_FLAG, sdiff < -128 || sdiff > 127);
        self.with_regs(Regs { a: r, flags: with_zn(f, r), ..self.regs })
    }

    /// ADC: adds the operand and the carry to A.
    pub open spec fn spec_adc(self, opd: Operand) -> Option<Self> {
        match self.spec_read(opd) {
            Some((c, v)) => Some(c.spec_add_value(v)),
            None => None,
        }
    }

    /// SBC: subtracts the operand and the borrow from A.
    pub open spec fn spec_sbc(self, opd: Operand) -> Option<Self> {
        match self.spec_read(opd) {
            Some((c, v)) => Some(c.spec_sub_value(v)),
            None => None,
        }
    }

    /// Compares a register with the operand: C when the register is at least the operand,
    /// Z and N from the difference.
    pub open spec fn spec_compare(self, reg: u8, opd: Operand) -> Option<Self> {
        match self.spec_read(opd) {
            Some((c, v)) => {
                let f = with_flag(c.regs.flags, CARRY_FLAG, reg >= v);
                Some(c.with_flags(with_zn(f, wrap8(reg - v))))
            },
            None => None,
        }
    }

    /// AND, ORA, EOR: A = A op M, with Z and N.
    pub open spec fn spec_logic(self, op: Op, opd: Operand) -> Option<Self> {
        match self.spec_read(opd) {
            Some((c, v)) => {
                let r = if op == Op::And { v & c.regs.a } else if op == Op::Ora { v | c.regs.a
                } else { v ^ c.regs.a };
                Some(c.with_regs(Regs { a: r, flags: with_zn(c.regs.flags, r), ..c.regs }))
            },
            None => None,
        }
    }

    /// BIT: Z when A and M share no bit; N and V copy bits 7 and 6 of M.
    pub open spec fn spec_bit(self, opd: Operand) -> Option<Self> {
        match self.spec_read(opd) {
            Some((c, v)) => {
                let f = with_flag(c.regs.flags, ZERO_FLAG, v & c.regs.a == 0);
                let f = with_flag(f, NEGATIVE_FLAG, v >= 0x80);
                let f = with_flag(f, OVERFLOW_FLAG, v % 0x80 >= 0x40);
                Some(c.with_flags(f))
            },
            None => None,
        }
    }

    /// Shifts left (ASL, `lsb` clear) or rotates left through carry (ROL, `lsb` the carry):
    /// the result is `2 * M + lsb` modulo 256 and C receives bit 7 of M.
    pub open spec fn spec_shl(self, lsb: bool, opd: Operand) -> Option<Self> {
        match self.spec_read(opd) {
            Some((c, v)) => {
                let r = wrap8(2 * v + if lsb { 1int } else { 0 });
                let f = with_flag(c.regs.flags, CARRY_FLAG, v >= 0x80);
                c.with_flags(with_zn(f, r)).spec_write(opd, r)
            },
            None => None,
        }
    }

    /// Shifts right (LSR, `msb` clear) or rotates right through carry (ROR, `msb` the carry):
    /// the result is `M / 2 + 128 * msb` and C receives bit 0 of M.
    pub open spec fn spec_shr(self, msb: bool, opd: Operand) -> Option<Self> {
        match self.spec_read(opd) {
            Some((c, v)) => {
                let r = (v / 2 + if msb { 0x80int } else { 0 }) as u8;
                let f = with_flag(c.regs.flags, CARRY_FLAG, v % 2 == 1);
                c.with_flags(with_zn(f, r)).spec_write(opd, r)
            },
            None => None,
        }
    }

    /// INC and DEC: M = M + delta modulo 256, with Z and N.
    pub open spec fn spec_step_mem(self, delta: int, opd: Operand) -> Option<Self> {
        match self.spec_read(opd) {
            Some((c, v)) => {
                let r = wrap8(v + delta);
                c.with_flags(with_zn(c.regs.flags, r)).spec_write(opd, r)
            },
            None => None,
        }
    }

    /// A branch: fetches the displacement, and when `cond` holds adds it, read as a signed
    /// byte, to the program counter.
    pub open spec fn spec_branch(self, cond: bool) -> Option<Self> {
        match self.spec_fetch8() {
            Some((c, disp)) => if cond {
                Some(c.with_pc(wrap16(c.regs.pc + signed(disp))))
            } else {
                Some(c)
            },
            None => None,
        }
    }

    /// The effect of one instruction, once its operand is known.
    pub open spec fn spec_exec(self, op: Op, opd: Operand) -> Option<Self> {
        let r = self.regs;
        match op {
            Op::Lda | Op::Ldx | Op::Ldy => self.spec_load_reg(op, opd),
            Op::Sta => self.spec_write(opd, r.a),
            Op::Stx => self.spec_write(opd, r.x),
            Op::Sty => self.spec_write(opd, r.y),
            Op::Adc => self.spec_adc(opd),
            Op::Sbc => self.spec_sbc(opd),
            Op::Cmp => self.spec_compare(r.a, opd),
            Op::Cpx => self.spec_compare(r.x, opd),
            Op::Cpy => self.spec_compare(r.y, opd),
            Op::And | Op::Ora | Op::Eor => self.spec_logic(op, opd),
            Op::Bit => self.spec_bit(opd),
            Op::Rol => self.spec_shl(self.flag(CARRY_FLAG), opd),
            Op::Ror => self.spec_shr(self.flag(CARRY_FLAG), opd),
            Op::Asl => self.spec_shl(false, opd),
            Op::Lsr => self.spec_shr(false, opd),
            Op::Inc => self.spec_step_mem(1, opd),
            Op::Dec => self.spec_step_mem(-1, opd),
            Op::Inx => Some(self.with_regs(
                Regs { x: wrap8(r.x + 1), flags: with_zn(r.flags, wrap8(r.x + 1)), ..r },
            )),
            Op::Dex => Some(self.with_regs(
                Regs { x: wrap8(r.x - 1), flags: with_zn(r.flags, wrap8(r.x - 1)), ..r },
            )),
            Op::Iny => Some(self.with_regs(
                Regs { y: wrap8(r.y + 1), flags: with_zn(r.flags, wrap8(r.y + 1)), ..r },
            )),
            Op::Dey => Some(self.with_regs(
                Regs { y: wrap8(r.y - 1), flags: with_zn(r.flags, wrap8(r.y - 1)), ..r },
            )),
            Op::Tax => Some(self.with_regs(Regs { x: r.a, flags: with_zn(r.flags, r.a), ..r })),
            Op::Tay => Some(self.with_regs(Regs { y: r.a, flags: with_zn(r.flags, r.a), ..r })),
            Op::Txa => Some(self.with_regs(Regs { a: r.x, flags: with_zn(r.flags, r.x), ..r })),
            Op::Tya => Some(self.with_regs(Regs { a: r.y, flags: with_zn(r.flags, r.y), ..r })),
            Op::Txs => Some(self.with_regs(Regs { s: r.x, ..r })),
            Op::Tsx => Some(self.with_regs(Regs { x: r.s, flags: with_zn(r.flags, r.s), ..r })),
            Op::Clc => Some(self.with_flags(with_flag(r.flags, CARRY_FLAG, false))),
            Op::Sec => Some(self.with_flags(with_flag(r.flags, CARRY_FLAG, true))),
            Op::Cli => Some(self.with_flags(with_flag(r.flags, IRQ_FLAG, false))),
            Op::Sei => Some(self.with_flags(with_flag(r.flags, IRQ_FLAG, true))),
            Op::Clv => Some(self.with_flags(with_flag(r.flags, OVERFLOW_FLAG, false))),
            Op::Cld => Some(self.with_flags(with_flag(r.flags, DECIMAL_FLAG, false))),
            Op::Sed => Some(self.with_flags(with_flag(r.flags, DECIMAL_FLAG, true))),
            Op::Bpl => self.spec_branch(!self.flag(NEGATIVE_FLAG)),
            Op::Bmi => self.spec_branch(self.flag(NEGATIVE_FLAG)),
            Op::Bvc => self.spec_branch(!self.flag(OVERFLOW_FLAG)),
            Op::Bvs => self.spec_branch(self.flag(OVERFLOW_FLAG)),
            Op::Bcc => self.spec_branch(!self.flag(CARRY_FLAG)),
            Op::Bcs => self.spec_branch(self.flag(CARRY_FLAG)),
            Op::Bne => self.spec_branch(!self.flag(ZERO_FLAG)),
            Op::Beq => self.spec_branch(self.flag(ZERO_FLAG)),
            Op::Jmp => match self.spec_fetch16() {
                Some((c, addr)) => Some(c.with_pc(addr)),
                None => None,
            },
            Op::Jmpi => match self.spec_fetch16() {
                // The indirect jump never crosses a page: the high byte of the target comes
                // from the start of the page when the pointer sits at its last byte.
                Some((c, addr)) => match c.load_spec(addr) {
                    Some((c2, lo)) => match c2.load_spec(
                        (addr - addr % 256 + (addr + 1) % 256) as u16,
                    ) {
                        Some((c3, hi)) => Some(c3.with_pc((lo + 256 * hi) as u16)),
                        None => None,
                    },
                    None => None,
                },
                None => None,
            },
            Op::Jsr => match self.spec_fetch16() {
                Some((c, addr)) => match c.spec_pushw(wrap16(c.regs.pc - 1)) {
                    Some(c2) => Some(c2.with_pc(addr)),
                    None => None,
                },
                None => None,
            },
            Op::Rts => match self.spec_popw() {
                Some((c, addr)) => Some(c.with_pc(wrap16(addr + 1))),
                None => None,
            },
            Op::Brk => match self.spec_pushw(wrap16(r.pc + 1)) {
                Some(c) => match c.spec_pushb(c.regs.flags) {
                    Some(c2) => match loadw_spec(
                        c2.with_flags(with_flag(c2.regs.flags, IRQ_FLAG, true)),
                        BRK_VECTOR,
                    ) {
                        Some((c3, addr)) => Some(c3.with_pc(addr)),
                        None => None,
                    },
                    None => None,
                },
                None => None,
            },
            Op::Rti => match self.spec_popb() {
                Some((c, f)) => match c.with_flags(pulled_flags(f)).spec_popw() {
                    Some((c2, addr)) => Some(c2.with_pc(addr)),
                    None => None,
                },
                None => None,
            },
            Op::Pha => self.spec_pushb(r.a),
            Op::Pla => match self.spec_popb() {
                Some((c, v)) => Some(c.with_regs(
                    Regs { a: v, flags: with_zn(c.regs.flags, v), ..c.regs },
                )),
                None => None,
            },
            Op::Php => self.spec_pushb(r.flags | BREAK_FLAG),
            Op::Plp => match self.spec_popb() {
                Some((c, v)) => Some(c.with_flags(pulled_flags(v))),
                None => None,
            },
            Op::Nop => Some(self),
        }
    }

    /// One fetch-decode-execute step: `None` when the opcode is not implemented, when a
    /// memory access is not served, or when the cycle counter would overflow.
    pub open spec fn spec_step(self) -> Option<Self> {
        match self.spec_fetch8() {
            Some((c1, op)) => match spec_decode(op) {
                Some((o, mode)) => match c1.spec_operand(mode) {
                    Some((c2, opd)) => match c2.spec_exec(o, opd) {
                        Some(c3) => if c3.cy + CYCLE_TABLE@[op as int] <= u64::MAX {
                            Some(Cpu { cy: (c3.cy + CYCLE_TABLE@[op as int]) as u64, ..c3 })
                        } else {
                            None
                        },
                        None => None,
                    },
                    None => None,
                },
                None => None,
            },
            None => None,
        }
    }

    /// RESET: the program counter is loaded from the reset vector.
    pub open spec fn spec_reset(self) -> Option<Self> {
        match loadw_spec(self, RESET_VECTOR) {
            Some((c, addr)) => Some(c.with_pc(addr)),
            None => None,
        }
    }

    /// An interrupt: pushes PC and the status, then jumps through `vector`.
    pub open spec fn spec_interrupt(self, vector: u16) -> Option<Self> {
        match self.spec_pushw(self.regs.pc) {
            Some(c) => match c.spec_pushb(c.regs.flags) {
                Some(c2) => match loadw_spec(c2, vector) {
                    Some((c3, addr)) => Some(c3.with_pc(addr)),
                    None => None,
                },
                None => None,
            },
            None => None,
        }
    }

    /// NMI: always taken, through the NMI vector.
    pub open spec fn spec_nmi(self) -> Option<Self> {
        self.spec_interrupt(NMI_VECTOR)
    }

    /// IRQ: ignored while the I flag is set, else taken through the BRK/IRQ vector.
    pub open spec fn spec_irq(self) -> Option<Self> {
        if self.flag(IRQ_FLAG) { Some(self) } else { self.spec_interrupt(BRK_VECTOR) }
    }
}

/// The CPU is the memory that instructions see: it forwards to its memory, except that a
/// store to $4014 starts an OAM DMA.
impl<M: Mem> Mem for Cpu<M> {
    open spec fn load_spec(&self, addr: u16) -> Option<(Self, u8)> {
        match self.mem.load_spec(addr) {
            Some((m, v)) => Some((self.with_mem(m), v)),
            None => None,
        }
    }

    open spec fn store_spec(&self, addr: u16, val: u8) -> Option<Self> {
        if addr == 0x4014 {
            self.spec_dma(val)
        } else {
            match self.mem.store_spec(addr, val) {
                Some(m) => Some(self.with_mem(m)),
                None => None,
            }
        }
    }

    fn loadb(&mut self, addr: u16) -> (val: u8) {
        self.mem.loadb(addr)
    }

    fn storeb(&mut self, addr: u16, val: u8) {
        // Handle OAM_DMA.
        if addr == 0x4014 {
            self.dma(val)
        } else {
            self.mem.storeb(addr, val)
        }
    }
}

//
// Facts about the bit manipulations of the implementation
//

proof fn lemma_bit_tests(a: u8, b: u8)
    ensures
        ((a ^ b) & 0x80 == 0) == ((a >= 0x80) == (b >= 0x80)),
        ((a ^ b) & 0x80 == 0x80) == ((a >= 0x80) != (b >= 0x80)),
        ((a ^ b) & 0x80 != 0) == ((a >= 0x80) != (b >= 0x80)),
        (a & 0x80 != 0) == (a >= 0x80),
        (a & 0x40 != 0) == (a % 0x80 >= 0x40),
        (a & 1 != 0) == (a % 2 == 1),
        (a << 1u8) == wrap8(2 * a),
        ((a << 1u8) | 1) == wrap8(2 * a + 1),
        (a >> 1u8) == a / 2,
        ((a >> 1u8) | 0x80) == a / 2 + 0x80,
        (a | 0x30) - 0x10 == pulled_flags(a),
        (a | 0x30) >= 0x10,
{
    assert({
        &&& ((a ^ b) & 0x80 == 0) == ((a >= 0x80) == (b >= 0x80))
        &&& ((a ^ b) & 0x80 == 0x80) == ((a >= 0x80) != (b >= 0x80))
        &&& ((a ^ b) & 0x80 != 0) == ((a >= 0x80) != (b >= 0x80))
        &&& (a & 0x80 != 0) == (a >= 0x80)
        &&& (a & 0x40 != 0) == (a % 0x80 >= 0x40)
        &&& (a & 1 != 0) == (a % 2 == 1)
        &&& (a << 1u8) == ((2 * a) % 0x100) as u8
        &&& ((a << 1u8) | 1) == ((2 * a + 1) % 0x100) as u8
        &&& (a >> 1u8) == a / 2
        &&& ((a >> 1u8) | 0x80) == a / 2 + 0x80
        &&& (a | 0x30) - 0x10 == (a | 0x20) & !0x10u8
        &&& (a | 0x30) >= 0x10
    }) by (bit_vector);
}

/// The carry and the low byte of a 9-bit sum computed in a u32.
proof fn lemma_sum_bits(r: u32)
    requires
        r < 0x200,
    ensures
        ((r & 0x100) != 0) == (r > 0xff),
        (r as u8) == wrap8(r as int),
{
    assert(((r & 0x100) != 0) == (r > 0xff) && (r as u8) == (r % 0x100) as u8) by (bit_vector)
        requires
            r < 0x200,
    ;
}

/// The borrow and the low byte of a difference in [-256, 255] computed in a wrapping u32.
proof fn lemma_diff_bits(d: int, r: u32)
    requires
        -256 <= d <= 255,
        r as int == (if d >= 0 { d } else { d + 0x1_0000_0000 }),
    ensures
        ((r & 0x100) == 0) == (d >= 0),
        (r as u8) == wrap8(d),
{
    if d >= 0 {
        assert((r & 0x100) == 0 && (r as u8) == r) by (bit_vector)
            requires
                r < 0x100,
        ;
    } else {
        assert((r & 0x100) != 0 && (r as u8) == r - 0xffff_ff00) by (bit_vector)
            requires
                r >= 0xffff_ff00,
        ;
    }
}

proof fn lemma_word(lo: u8, hi: u8)
    ensures
        ((hi as u16) << 8u16 | lo as u16) == lo + 256 * hi,
{
    crate::bits::lemma_bytes_to_word(lo, hi);
}

proof fn lemma_page_wrap(addr: u16, next: u16)
    requires
        next == wrap16(addr + 1),
    ensures
        ((addr & 0xff00) | (next & 0x00ff)) == addr - addr % 256 + (addr + 1) % 256,
{
    if addr == 0xffff {
        assert(next == 0);
        assert(((addr & 0xff00) | (next & 0x00ff)) == 0xff00) by (bit_vector)
            requires
                addr == 0xffff,
                next == 0,
        ;
    } else {
        assert(((addr & 0xff00) | (next & 0x00ff)) == addr - addr % 256 + (addr + 1) % 256)
            by (bit_vector)
            requires
                next == addr + 1,
        ;
    }
}

proof fn lemma_branch_target(pc: u16, disp: u8)
    ensures
        ((pc as i32 + (disp as i8) as i32) as u16) == wrap16(pc + signed(disp)),
{
    if disp < 128 {
        assert((disp as i8) as i32 == disp as i32 && ((pc as i32 + disp as i32) as u16) == ((pc
            + disp) % 0x10000) as u16) by (bit_vector)
            requires
                disp < 128,
        ;
    } else {
        assert((disp as i8) as i32 == disp as i32 - 256 && ((pc as i32 + (disp as i32 - 256)) as u16)
            == (((pc + disp - 256) + 0x10000) % 0x10000) as u16) by (bit_vector)
            requires
                disp >= 128,
        ;
    }
}

proof fn lemma_page_times_256(hi: u8)
    ensures
        ((hi as u16) << 8u16) == hi * 256,
{
    crate::bits::lemma_bytes_to_word(0, hi);
}

impl<M: Mem> Cpu<M> {
    /// A CPU in its power-on state over the given memory.
    pub fn new(mem: M) -> (c: Cpu<M>)
        ensures
            c == (Cpu {
                cy: 0,
                regs: Regs { a: 0, x: 0, y: 0, s: 0xfd, flags: 0x24, pc: 0xc000 },
                mem: mem,
            }),
    {
        Cpu { cy: 0, regs: Regs::new(), mem: mem }
    }

    /// Performs DMA to the OAMDATA ($2004) register.
    fn dma(&mut self, hi_addr: u8)
        requires
            old(self).spec_dma(hi_addr) is Some,
        ensures
            old(self).spec_dma(hi_addr) == Some(*final(self)),
    {
        proof {
            lemma_page_times_256(hi_addr);
        }
        let start: u16 = (hi_addr as u16) << 8u16;
        let ghost target = old(self).spec_dma(hi_addr);
        let mut k: u16 = 0;
        while k < 256
            invariant
                start == hi_addr * 256,
                k <= 256,
                target == old(self).spec_dma(hi_addr),
                target is Some,
                target == self.spec_dma_loop(start + k, (256 - k) as nat),
            decreases 256 - k,
        {
            let addr = start + k;
            let val = self.mem.loadb(addr);
            self.mem.storeb(0x2004, val);
            // FIXME: The last address sometimes takes 1 cycle, sometimes 2 -- NESdev isn't very
            // clear on this.
            self.cy = self.cy + 2;
            k = k + 1;
        }
    }

    // Memory access helpers
    /// Loads the byte at the program counter and increments the program counter.
    fn loadb_bump_pc(&mut self) -> (val: u8)
        requires
            old(self).spec_fetch8() is Some,
        ensures
            old(self).spec_fetch8() == Some((*final(self), val)),
    {
        let pc = self.regs.pc;
        let val = self.loadb(pc);
        self.regs.pc = pc.wrapping_add(1);
        val
    }

    /// Loads two bytes (little-endian) at the program counter and bumps the program counter over
    /// them.
    fn loadw_bump_pc(&mut self) -> (val: u16)
        requires
            old(self).spec_fetch16() is Some,
        ensures
            old(self).spec_fetch16() == Some((*final(self), val)),
    {
        let pc = self.regs.pc;
        let val = self.loadw(pc);
        self.regs.pc = pc.wrapping_add(2);
        val
    }

    // Stack helpers
    fn pushb(&mut self, val: u8)
        requires
            old(self).spec_pushb(val) is Some,
        ensures
            old(self).spec_pushb(val) == Some(*final(self)),
    {
        let s = self.regs.s;
        self.storeb(0x100 + s as u16, val);
        self.regs.s = s.wrapping_sub(1);
    }

    fn pushw(&mut self, val: u16)
        requires
            old(self).spec_pushw(val) is Some,
        ensures
            old(self).spec_pushw(val) == Some(*final(self)),
    {
        let s = self.regs.s;
        self.storew(0x100 + s.wrapping_sub(1) as u16, val);
        self.regs.s = s.wrapping_sub(2);
    }

    fn popb(&mut self) -> (val: u8)
        requires
            old(self).spec_popb() is Some,
        ensures
            old(self).spec_popb() == Some((*final(self), val)),
    {
        let s = self.regs.s;
        let val = self.loadb(0x100 + s as u16 + 1);
        self.regs.s = s.wrapping_add(1);
        val
    }

    fn popw(&mut self) -> (val: u16)
        requires
            old(self).spec_popw() is Some,
        ensures
            old(self).spec_popw() == Some((*final(self), val)),
    {
        let s = self.regs.s;
        let val = self.loadw(0x100 + s as u16 + 1);
        self.regs.s = s.wrapping_add(2);
        val
    }

    // Flag helpers
    fn get_flag(&self, flag: u8) -> (on: bool)
        ensures
            on == self.flag(flag),
    {
        (self.regs.flags & flag) != 0
    }

    fn set_flag(&mut self, flag: u8, on: bool)
        ensures
            *final(self) == old(self).with_flags(with_flag(old(self).regs.flags, flag, on)),
    {
        if on {
            self.regs.flags = self.regs.flags | flag;
        } else {
            self.regs.flags = self.regs.flags & !flag;
        }
    }

    /// Flags get munged in a strange way relating to the unused bit 5 on the NES.
    fn set_flags(&mut self, val: u8)
        ensures
            *final(self) == old(self).with_flags(pulled_flags(val)),
    {
        proof {
            lemma_bit_tests(val, 0);
        }
        self.regs.flags = (val | 0x30) - 0x10;
    }

    fn set_zn(&mut self, val: u8) -> (r: u8)
        ensures
            r == val,
            *final(self) == old(self).with_flags(with_zn(old(self).regs.flags, val)),
    {
        self.set_flag(ZERO_FLAG, val == 0);
        self.set_flag(NEGATIVE_FLAG, (val & 0x80) != 0);
        proof {
            lemma_bit_tests(val, 0);
        }
        val
    }

    // Addressing modes
    fn immediate(&mut self) -> (opd: Operand)
        ensures
            old(self).spec_operand(Mode::Immediate) == Some((*final(self), opd)),
    {
        Operand::Immediate
    }

    fn accumulator(&mut self) -> (opd: Operand)
        ensures
            old(self).spec_operand(Mode::Accumulator) == Some((*final(self), opd)),
    {
        Operand::Accumulator
    }

    fn zero_page(&mut self) -> (opd: Operand)
        requires
            old(self).spec_operand(Mode::ZeroPage) is Some,
        ensures
            old(self).spec_operand(Mode::ZeroPage) == Some((*final(self), opd)),
    {
        Operand::Memory(self.loadb_bump_pc() as u16)
    }

    fn zero_page_x(&mut self) -> (opd: Operand)
        requires
            old(self).spec_operand(Mode::ZeroPageX) is Some,
        ensures
            old(self).spec_operand(Mode::ZeroPageX) == Some((*final(self), opd)),
    {
        let v = self.loadb_bump_pc();
        Operand::Memory(v.wrapping_add(self.regs.x) as u16)
    }

    fn zero_page_y(&mut self) -> (opd: Operand)
        requires
            old(self).spec_operand(Mode::ZeroPageY) is Some,
        ensures
            old(self).spec_operand(Mode::ZeroPageY) == Some((*final(self), opd)),
    {
        let v = self.loadb_bump_pc();
        Operand::Memory(v.wrapping_add(self.regs.y) as u16)
    }

    fn absolute(&mut self) -> (opd: Operand)
        requires
            old(self).spec_operand(Mode::Absolute) is Some,
        ensures
            old(self).spec_operand(Mode::Absolute) == Some((*final(self), opd)),
    {
        Operand::Memory(self.loadw_bump_pc())
    }

    fn absolute_x(&mut self) -> (opd: Operand)
        requires
            old(self).spec_operand(Mode::AbsoluteX) is Some,
        ensures
            old(self).spec_operand(Mode::AbsoluteX) == Some((*final(self), opd)),
    {
        let v = self.loadw_bump_pc();
        Operand::Memory(v.wrapping_add(self.regs.x as u16))
    }

    fn absolute_y(&mut self) -> (opd: Operand)
        requires
            old(self).spec_operand(Mode::AbsoluteY) is Some,
        ensures
            old(self).spec_operand(Mode::AbsoluteY) == Some((*final(self), opd)),
    {
        let v = self.loadw_bump_pc();
        Operand::Memory(v.wrapping_add(self.regs.y as u16))
    }

    fn indexed_indirect_x(&mut self) -> (opd: Operand)
        requires
            old(self).spec_operand(Mode::IndexedIndirectX) is Some,
        ensures
            old(self).spec_operand(Mode::IndexedIndirectX) == Some((*final(self), opd)),
    {
        let val = self.loadb_bump_pc();
        let x = self.regs.x;
        let addr = self.loadw_zp(val.wrapping_add(x));
        Operand::Memory(addr)
    }

    fn indirect_indexed_y(&mut self) -> (opd: Operand)
        requires
            old(self).spec_operand(Mode::IndirectIndexedY) is Some,
        ensures
            old(self).spec_operand(Mode::IndirectIndexedY) == Some((*final(self), opd)),
    {
        let val = self.loadb_bump_pc();
        let addr = self.loadw_zp(val);
        let y = self.regs.y;
        Operand::Memory(addr.wrapping_add(y as u16))
    }

    /// Computes the operand of an addressing mode.
    fn operand(&mut self, mode: Mode) -> (opd: Operand)
        requires
            old(self).spec_operand(mode) is Some,
        ensures
            old(self).spec_operand(mode) == Some((*final(self), opd)),
    {
        match mode {
            Mode::Implied => Operand::Implied,
            Mode::Immediate => self.immediate(),
            Mode::Accumulator => self.accumulator(),
            Mode::ZeroPage => self.zero_page(),
            Mode::ZeroPageX => self.zero_page_x(),
            Mode::ZeroPageY => self.zero_page_y(),
            Mode::Absolute => self.absolute(),
            Mode::AbsoluteX => self.absolute_x(),
            Mode::AbsoluteY => self.absolute_y(),
            Mode::IndexedIndirectX => self.indexed_indirect_x(),
            Mode::IndirectIndexedY => self.indirect_indexed_y(),
        }
    }

    /// Reads an operand (the accumulator, the immediate byte, or memory).
    fn load(&mut self, opd: Operand) -> (val: u8)
        requires
            old(self).spec_read(opd) is Some,
        ensures
            old(self).spec_read(opd) == Some((*final(self), val)),
    {
        match opd {
            Operand::Accumulator => self.regs.a,
            Operand::Immediate => self.loadb_bump_pc(),
            Operand::Memory(addr) => self.loadb(addr),
            Operand::Implied => 0,
        }
    }

    /// Writes an operand (the accumulator or memory).
    fn store(&mut self, opd: Operand, val: u8)
        requires
            old(self).spec_write(opd, val) is Some,
        ensures
            old(self).spec_write(opd, val) == Some(*final(self)),
    {
        match opd {
            Operand::Accumulator => {
                self.regs.a = val;
            },
            Operand::Memory(addr) => self.storeb(addr, val),
            _ => {},
        }
    }

    //
    // Instructions
    //

    /// Loads
    fn lda(&mut self, opd: Operand)
        requires
            old(self).spec_exec(Op::Lda, opd) is Some,
        ensures
            old(self).spec_exec(Op::Lda, opd) == Some(*final(self)),
    {
        let val = self.load(opd);
        self.regs.a = self.set_zn(val)
    }

    fn ldx(&mut self, opd: Operand)
        requires
            old(self).spec_exec(Op::Ldx, opd) is Some,
        ensures
            old(self).spec_exec(Op::Ldx, opd) == Some(*final(self)),
    {
        let val = self.load(opd);
        self.regs.x = self.set_zn(val)
    }

    fn ldy(&mut self, opd: Operand)
        requires
            old(self).spec_exec(Op::Ldy, opd) is Some,
        ensures
            old(self).spec_exec(Op::Ldy, opd) == Some(*final(self)),
    {
        let val = self.load(opd);
        self.regs.y = self.set_zn(val)
    }

    /// Stores
    fn sta(&mut self, opd: Operand)
        requires
            old(self).spec_exec(Op::Sta, opd) is Some,
        ensures
            old(self).spec_exec(Op::Sta, opd) == Some(*final(self)),
    {
        let a = self.regs.a;
        self.store(opd, a)
    }

    fn stx(&mut self, opd: Operand)
        requires
            old(self).spec_exec(Op::Stx, opd) is Some,
        ensures
            old(self).spec_exec(Op::Stx, opd) == Some(*final(self)),
    {
        let x = self.regs.x;
        self.store(opd, x)
    }

    fn sty(&mut self, opd: Operand)
        requires
            old(self).spec_exec(Op::Sty, opd) is Some,
        ensures
            old(self).spec_exec(Op::Sty, opd) == Some(*final(self)),
    {
        let y = self.regs.y;
        self.store(opd, y)
    }

    /// Arithmetic
    fn adc(&mut self, opd: Operand)
        requires
            old(self).spec_exec(Op::Adc, opd) is Some,
        ensures
            old(self).spec_exec(Op::Adc, opd) == Some(*final(self)),
    {
        let val = self.load(opd);
        let a = self.regs.a;
        let mut result = a as u32 + val as u32;
        if self.get_flag(CARRY_FLAG) {
            result = result + 1;
        }
        proof {
            lemma_sum_bits(result);
        }
        self.set_flag(CARRY_FLAG, (result & 0x100) != 0);
        let result = result as u8;
        proof {
            lemma_bit_tests(a, val);
            lemma_bit_tests(a, result);
        }
        self.set_flag(OVERFLOW_FLAG, (a ^ val) & 0x80 == 0 && (a ^ result) & 0x80 == 0x80);
        self.regs.a = self.set_zn(result);
    }

    fn sbc(&mut self, opd: Operand)
        requires
            old(self).spec_exec(Op::Sbc, opd) is Some,
        ensures
            old(self).spec_exec(Op::Sbc, opd) == Some(*final(self)),
    {
        let val = self.load(opd);
        let a = self.regs.a;
        let mut result = (a as u32).wrapping_sub(val as u32);
        let ghost borrow: int = if self.flag(CARRY_FLAG) { 0 } else { 1 };
        if !self.get_flag(CARRY_FLAG) {
            result = result.wrapping_sub(1);
        }
        proof {
            lemma_diff_bits(a - val - borrow, result);
        }
        self.set_flag(CARRY_FLAG, (result & 0x100) == 0);
        let result = result as u8;
        proof {
            lemma_bit_tests(a, val);
            lemma_bit_tests(a, result);
        }
        self.set_flag(OVERFLOW_FLAG, (a ^ result) & 0x80 != 0 && (a ^ val) & 0x80 == 0x80);
        self.regs.a = self.set_zn(result);
    }

    // Comparisons
    fn compare_reg(&mut self, x: u8, opd: Operand)
        requires
            old(self).spec_compare(x, opd) is Some,
        ensures
            old(self).spec_compare(x, opd) == Some(*final(self)),
    {
        let y = self.load(opd);
        let result = (x as u32).wrapping_sub(y as u32);
        proof {
            lemma_diff_bits(x - y, result);
        }
        self.set_flag(CARRY_FLAG, (result & 0x100) == 0);
        let _ = self.set_zn(result as u8);
    }

    fn cmp(&mut self, opd: Operand)
        requires
            old(self).spec_exec(Op::Cmp, opd) is Some,
        ensures
            old(self).spec_exec(Op::Cmp, opd) == Some(*final(self)),
    {
        let a = self.regs.a;
        self.compare_reg(a, opd)
    }

    fn cpx(&mut self, opd: Operand)
        requires
            old(self).spec_exec(Op::Cpx, opd) is Some,
        ensures
            old(self).spec_exec(Op::Cpx, opd) == Some(*final(self)),
    {
        let x = self.regs.x;
        self.compare_reg(x, opd)
    }

    fn cpy(&mut self, opd: Operand)
        requires
            old(self).spec_exec(Op::Cpy, opd) is Some,
        ensures
            old(self).spec_exec(Op::Cpy, opd) == Some(*final(self)),
    {
        let y = self.regs.y;
        self.compare_reg(y, opd)
    }

    /// Bitwise operations
    fn and(&mut self, opd: Operand)
        requires
            old(self).spec_exec(Op::And, opd) is Some,
        ensures
            old(self).spec_exec(Op::And, opd) == Some(*final(self)),
    {
        let val = self.load(opd) & self.regs.a;
        self.regs.a = self.set_zn(val)
    }

    fn ora(&mut self, opd: Operand)
        requires
            old(self).spec_exec(Op::Ora, opd) is Some,
        ensures
            old(self).spec_exec(Op::Ora, opd) == Some(*final(self)),
    {
        let val = self.load(opd) | self.regs.a;
        self.regs.a = self.set_zn(val)
    }

    fn eor(&mut self, opd: Operand)
        requires
            old(self).spec_exec(Op::Eor, opd) is Some,
        ensures
            old(self).spec_exec(Op::Eor, opd) == Some(*final(self)),
    {
        let val = self.load(opd) ^ self.regs.a;
        self.regs.a = self.set_zn(val)
    }

    fn bit(&mut self, opd: Operand)
        requires
            old(self).spec_exec(Op::Bit, opd) is Some,
        ensures
            old(self).spec_exec(Op::Bit, opd) == Some(*final(self)),
    {
        let val = self.load(opd);
        let a = self.regs.a;
        proof {
            lemma_bit_tests(val, 0);
        }
        self.set_flag(ZERO_FLAG, (val & a) == 0);
        self.set_flag(NEGATIVE_FLAG, (val & 0x80) != 0);
        self.set_flag(OVERFLOW_FLAG, (val & 0x40) != 0);
    }

    // Shifts and rotates
    fn shl_base(&mut self, lsb: bool, opd: Operand)
        requires
            old(self).spec_shl(lsb, opd) is Some,
        ensures
            old(self).spec_shl(lsb, opd) == Some(*final(self)),
    {
        let val = self.load(opd);
        proof {
            lemma_bit_tests(val, 0);
        }
        let new_carry = (val & 0x80) != 0;
        let mut result = val << 1u8;
        if lsb {
            result = result | 1;
        }
        self.set_flag(CARRY_FLAG, new_carry);
        let val = self.set_zn(result);
        self.store(opd, val)
    }

    fn shr_base(&mut self, msb: bool, opd: Operand)
        requires
            old(self).spec_shr(msb, opd) is Some,
        ensures
            old(self).spec_shr(msb, opd) == Some(*final(self)),
    {
        let val = self.load(opd);
        proof {
            lemma_bit_tests(val, 0);
        }
        let new_carry = (val & 0x1) != 0;
        let mut result = val >> 1u8;
        if msb {
            result = result | 0x80;
        }
        self.set_flag(CARRY_FLAG, new_carry);
        let val = self.set_zn(result);
        self.store(opd, val)
    }

    fn rol(&mut self, opd: Operand)
        requires
            old(self).spec_exec(Op::Rol, opd) is Some,
        ensures
            old(self).spec_exec(Op::Rol, opd) == Some(*final(self)),
    {
        let c = self.get_flag(CARRY_FLAG);
        self.shl_base(c, opd)
    }

    fn ror(&mut self, opd: Operand)
        requires
            old(self).spec_exec(Op::Ror, opd) is Some,
        ensures
            old(self).spec_exec(Op::Ror, opd) == Some(*final(self)),
    {
        let c = self.get_flag(CARRY_FLAG);
        self.shr_base(c, opd)
    }

    fn asl(&mut self, opd: Operand)
        requires
            old(self).spec_exec(Op::Asl, opd) is Some,
        ensures
            old(self).spec_exec(Op::Asl, opd) == Some(*final(self)),
    {
        self.shl_base(false, opd)
    }

    fn lsr(&mut self, opd: Operand)
        requires
            old(self).spec_exec(Op::Lsr, opd) is Some,
        ensures
            old(self).spec_exec(Op::Lsr, opd) == Some(*final(self)),
    {
        self.shr_base(false, opd)
    }

    /// Increments and decrements
    fn inc(&mut self, opd: Operand)
        requires
            old(self).spec_exec(Op::Inc, opd) is Some,
        ensures
            old(self).spec_exec(Op::Inc, opd) == Some(*final(self)),
    {
        let val = self.load(opd);
        let val = self.set_zn(val.wrapping_add(1));
        self.store(opd, val)
    }

    fn dec(&mut self, opd: Operand)
        requires
            old(self).spec_exec(Op::Dec, opd) is Some,
        ensures
            old(self).spec_exec(Op::Dec, opd) == Some(*final(self)),
    {
        let val = self.load(opd);
        let val = self.set_zn(val.wrapping_sub(1));
        self.store(opd, val)
    }

    fn inx(&mut self)
        requires
            old(self).spec_exec(Op::Inx, Operand::Implied) is Some,
        ensures
            old(self).spec_exec(Op::Inx, Operand::Implied) == Some(*final(self)),
    {
        let x = self.regs.x;
        self.regs.x = self.set_zn(x.wrapping_add(1))
    }

    fn dex(&mut self)
        requires
            old(self).spec_exec(Op::Dex, Operand::Implied) is Some,
        ensures
            old(self).spec_exec(Op::Dex, Operand::Implied) == Some(*final(self)),
    {
        let x = self.regs.x;
        self.regs.x = self.set_zn(x.wrapping_sub(1))
    }

    fn iny(&mut self)
        requires
            old(self).spec_exec(Op::Iny, Operand::Implied) is Some,
        ensures
            old(self).spec_exec(Op::Iny, Operand::Implied) == Some(*final(self)),
    {
        let y = self.regs.y;
        self.regs.y = self.set_zn(y.wrapping_add(1))
    }

    fn dey(&mut self)
        requires
            old(self).spec_exec(Op::Dey, Operand::Implied) is Some,
        ensures
            old(self).spec_exec(Op::Dey, Operand::Implied) == Some(*final(self)),
    {
        let y = self.regs.y;
        self.regs.y = self.set_zn(y.wrapping_sub(1))
    }

    fn tax(&mut self)
        requires
            old(self).spec_exec(Op::Tax, Operand::Implied) is Some,
        ensures
            old(self).spec_exec(Op::Tax, Operand::Implied) == Some(*final(self)),
    {
        let v = self.regs.a;
        self.regs.x = self.set_zn(v)
    }

    fn tay(&mut self)
        requires
            old(self).spec_exec(Op::Tay, Operand::Implied) is Some,
        ensures
            old(self).spec_exec(Op::Tay, Operand::Implied) == Some(*final(self)),
    {
        let v = self.regs.a;
        self.regs.y = self.set_zn(v)
    }

    fn txa(&mut self)
        requires
            old(self).spec_exec(Op::Txa, Operand::Implied) is Some,
        ensures
            old(self).spec_exec(Op::Txa, Operand::Implied) == Some(*final(self)),
    {
        let v = self.regs.x;
        self.regs.a = self.set_zn(v)
    }

    fn tya(&mut self)
        requires
            old(self).spec_exec(Op::Tya, Operand::Implied) is Some,
        ensures
            old(self).spec_exec(Op::Tya, Operand::Implied) == Some(*final(self)),
    {
        let v = self.regs.y;
        self.regs.a = self.set_zn(v)
    }

    fn tsx(&mut self)
        requires
            old(self).spec_exec(Op::Tsx, Operand::Implied) is Some,
        ensures
            old(self).spec_exec(Op::Tsx, Operand::Implied) == Some(*final(self)),
    {
        let v = self.regs.s;
        self.regs.x = self.set_zn(v)
    }

    fn txs(&mut self)
        requires
            old(self).spec_exec(Op::Txs, Operand::Implied) is Some,
        ensures
            old(self).spec_exec(Op::Txs, Operand::Implied) == Some(*final(self)),
    {
        self.regs.s = self.regs.x
    }

    fn clc(&mut self)
        requires
            old(self).spec_exec(Op::Clc, Operand::Implied) is Some,
        ensures
            old(self).spec_exec(Op::Clc, Operand::Implied) == Some(*final(self)),
    {
        self.set_flag(CARRY_FLAG, false)
    }

    fn sec(&mut self)
        requires
            old(self).spec_exec(Op::Sec, Operand::Implied) is Some,
        ensures
            old(self).spec_exec(Op::Sec, Operand::Implied) == Some(*final(self)),
    {
        self.set_flag(CARRY_FLAG, true)
    }

    fn cli(&mut self)
        requires
            old(self).spec_exec(Op::Cli, Operand::Implied) is Some,
        ensures
            old(self).spec_exec(Op::Cli, Operand::Implied) == Some(*final(self)),
    {
        self.set_flag(IRQ_FLAG, false)
    }

    fn sei(&mut self)
        requires
            old(self).spec_exec(Op::Sei, Operand::Implied) is Some,
        ensures
            old(self).spec_exec(Op::Sei, Operand::Implied) == Some(*final(self)),
    {
        self.set_flag(IRQ_FLAG, true)
    }

    fn clv(&mut self)
        requires
            old(self).spec_exec(Op::Clv, Operand::Implied) is Some,
        ensures
            old(self).spec_exec(Op::Clv, Operand::Implied) == Some(*final(self)),
    {
        self.set_flag(OVERFLOW_FLAG, false)
    }

    fn cld(&mut self)
        requires
            old(self).spec_exec(Op::Cld, Operand::Implied) is Some,
        ensures
            old(self).spec_exec(Op::Cld, Operand::Implied) == Some(*final(self)),
    {
        self.set_flag(DECIMAL_FLAG, false)
    }

    fn sed(&mut self)
        requires
            old(self).spec_exec(Op::Sed, Operand::Implied) is Some,
        ensures
            old(self).spec_exec(Op::Sed, Operand::Implied) == Some(*final(self)),
    {
        self.set_flag(DECIMAL_FLAG, true)
    }

    // Branches
    fn bra_base(&mut self, cond: bool)
        requires
            old(self).spec_branch(cond) is Some,
        ensures
            old(self).spec_branch(cond) == Some(*final(self)),
    {
        let d = self.loadb_bump_pc();
        let disp = d as i8;
        if cond {
            proof {
                lemma_branch_target(self.regs.pc, d);
            }
            self.regs.pc = (self.regs.pc as i32 + disp as i32) as u16;
        }
    }

    fn bpl(&mut self)
        requires
            old(self).spec_exec(Op::Bpl, Operand::Implied) is Some,
        ensures
            old(self).spec_exec(Op::Bpl, Operand::Implied) == Some(*final(self)),
    {
        let flag = !self.get_flag(NEGATIVE_FLAG);
        self.bra_base(flag)
    }

    fn bmi(&mut self)
        requires
            old(self).spec_exec(Op::Bmi, Operand::Implied) is Some,
        ensures
            old(self).spec_exec(Op::Bmi, Operand::Implied) == Some(*final(self)),
    {
        let flag = self.get_flag(NEGATIVE_FLAG);
        self.bra_base(flag)
    }

    fn bvc(&mut self)
        requires
            old(self).spec_exec(Op::Bvc, Operand::Implied) is Some,
        ensures
            old(self).spec_exec(Op::Bvc, Operand::Implied) == Some(*final(self)),
    {
        let flag = !self.get_flag(OVERFLOW_FLAG);
        self.bra_base(flag)
    }

    fn bvs(&mut self)
        requires
            old(self).spec_exec(Op::Bvs, Operand::Implied) is Some,
        ensures
            old(self).spec_exec(Op::Bvs, Operand::Implied) == Some(*final(self)),
    {
        let flag = self.get_flag(OVERFLOW_FLAG);
        self.bra_base(flag)
    }

    fn bcc(&mut self)
        requires
            old(self).spec_exec(Op::Bcc, Operand::Implied) is Some,
        ensures
            old(self).spec_exec(Op::Bcc, Operand::Implied) == Some(*final(self)),
    {
        let flag = !self.get_flag(CARRY_FLAG);
        self.bra_base(flag)
    }

    fn bcs(&mut self)
        requires
            old(self).spec_exec(Op::Bcs, Operand::Implied) is Some,
        ensures
            old(self).spec_exec(Op::Bcs, Operand::Implied) == Some(*final(self)),
    {
        let flag = self.get_flag(CARRY_FLAG);
        self.bra_base(flag)
    }

    fn bne(&mut self)
        requires
            old(self).spec_exec(Op::Bne, Operand::Implied) is Some,
        ensures
            old(self).spec_exec(Op::Bne, Operand::Implied) == Some(*final(self)),
    {
        let flag = !self.get_flag(ZERO_FLAG);
        self.bra_base(flag)
    }

    fn beq(&mut self)
        requires
            old(self).spec_exec(Op::Beq, Operand::Implied) is Some,
        ensures
            old(self).spec_exec(Op::Beq, Operand::Implied) == Some(*final(self)),
    {
        let flag = self.get_flag(ZERO_FLAG);
        self.bra_base(flag)
    }

    fn jmp(&mut self)
        requires
            old(self).spec_exec(Op::Jmp, Operand::Implied) is Some,
        ensures
            old(self).spec_exec(Op::Jmp, Operand::Implied) == Some(*final(self)),
    {
        self.regs.pc = self.loadw_bump_pc()
    }

    fn jmpi(&mut self)
        requires
            old(self).spec_exec(Op::Jmpi, Operand::Implied) is Some,
        ensures
            old(self).spec_exec(Op::Jmpi, Operand::Implied) == Some(*final(self)),
    {
        let addr = self.loadw_bump_pc();

        // Replicate the famous CPU bug...
        let lo = self.loadb(addr);
        let next = addr.wrapping_add(1);
        proof {
            lemma_page_wrap(addr, next);
        }
        let hi = self.loadb((addr & 0xff00) | (next & 0x00ff));
        proof {
            lemma_word(lo, hi);
        }
        self.regs.pc = (hi as u16) << 8u16 | lo as u16;
    }

    fn jsr(&mut self)
        requires
            old(self).spec_exec(Op::Jsr, Operand::Implied) is Some,
        ensures
            old(self).spec_exec(Op::Jsr, Operand::Implied) == Some(*final(self)),
    {
        let addr = self.loadw_bump_pc();
        let pc = self.regs.pc;
        self.pushw(pc.wrapping_sub(1));
        self.regs.pc = addr;
    }

    fn rts(&mut self)
        requires
            old(self).spec_exec(Op::Rts, Operand::Implied) is Some,
        ensures
            old(self).spec_exec(Op::Rts, Operand::Implied) == Some(*final(self)),
    {
        self.regs.pc = self.popw().wrapping_add(1)
    }

    fn brk(&mut self)
        requires
            old(self).spec_exec(Op::Brk, Operand::Implied) is Some,
        ensures
            old(self).spec_exec(Op::Brk, Operand::Implied) == Some(*final(self)),
    {
        let pc = self.regs.pc;
        self.pushw(pc.wrapping_add(1));
        let flags = self.regs.flags;
        self.pushb(flags);
        self.set_flag(IRQ_FLAG, true);
        self.regs.pc = self.loadw(BRK_VECTOR);
    }

    fn rti(&mut self)
        requires
            old(self).spec_exec(Op::Rti, Operand::Implied) is Some,
        ensures
            old(self).spec_exec(Op::Rti, Operand::Implied) == Some(*final(self)),
    {
        let flags = self.popb();
        self.set_flags(flags);
        self.regs.pc = self.popw();
    }

    fn pha(&mut self)
        requires
            old(self).spec_exec(Op::Pha, Operand::Implied) is Some,
        ensures
            old(self).spec_exec(Op::Pha, Operand::Implied) == Some(*final(self)),
    {
        let a = self.regs.a;
        self.pushb(a)
    }

    fn pla(&mut self)
        requires
            old(self).spec_exec(Op::Pla, Operand::Implied) is Some,
        ensures
            old(self).spec_exec(Op::Pla, Operand::Implied) == Some(*final(self)),
    {
        let val = self.popb();
        self.regs.a = self.set_zn(val)
    }

    fn php(&mut self)
        requires
            old(self).spec_exec(Op::Php, Operand::Implied) is Some,
        ensures
            old(self).spec_exec(Op::Php, Operand::Implied) == Some(*final(self)),
    {
        let flags = self.regs.flags;
        self.pushb(flags | BREAK_FLAG)
    }

    fn plp(&mut self)
        requires
            old(self).spec_exec(Op::Plp, Operand::Implied) is Some,
        ensures
            old(self).spec_exec(Op::Plp, Operand::Implied) == Some(*final(self)),
    {
        let val = self.popb();
        self.set_flags(val)
    }

    fn nop(&mut self)
        requires
            old(self).spec_exec(Op::Nop, Operand::Implied) is Some,
        ensures
            old(self).spec_exec(Op::Nop, Operand::Implied) == Some(*final(self)),
    {

    }

    /// Runs one decoded instruction.
    fn execute(&mut self, op: Op, opd: Operand)
        requires
            old(self).spec_exec(op, opd) is Some,
        ensures
            old(self).spec_exec(op, opd) == Some(*final(self)),
    {
        match op {
            Op::Lda => self.lda(opd),
            Op::Ldx => self.ldx(opd),
            Op::Ldy => self.ldy(opd),
            Op::Sta => self.sta(opd),
            Op::Stx => self.stx(opd),
            Op::Sty => self.sty(opd),
            Op::Adc => self.adc(opd),
            Op::Sbc => self.sbc(opd),
            Op::Cmp => self.cmp(opd),
            Op::Cpx => self.cpx(opd),
            Op::Cpy => self.cpy(opd),
            Op::And => self.and(opd),
            Op::Ora => self.ora(opd),
            Op::Eor => self.eor(opd),
            Op::Bit => self.bit(opd),
            Op::Rol => self.rol(opd),
            Op::Ror => self.ror(opd),
            Op::Asl => self.asl(opd),
            Op::Lsr => self.lsr(opd),
            Op::Inc => self.inc(opd),
            Op::Dec => self.dec(opd),
            Op::Inx => {
                assert(opd == Operand::Implied || true);
                self.inx()
            },
            Op::Dex => {
                assert(opd == Operand::Implied || true);
                self.dex()
            },
            Op::Iny => {
                assert(opd == Operand::Implied || true);
                self.iny()
            },
            Op::Dey => {
                assert(opd == Operand::Implied || true);
                self.dey()
            },
            Op::Tax => {
                assert(opd == Operand::Implied || true);
                self.tax()
            },
            Op::Tay => {
                assert(opd == Operand::Implied || true);
                self.tay()
            },
            Op::Txa => {
                assert(opd == Operand::Implied || true);
                self.txa()
            },
            Op::Tya => {
                assert(opd == Operand::Implied || true);
                self.tya()
            },
            Op::Txs => {
                assert(opd == Operand::Implied || true);
                self.txs()
            },
            Op::Tsx => {
                assert(opd == Operand::Implied || true);
                self.tsx()
            },
            Op::Clc => {
                assert(opd == Operand::Implied || true);
                self.clc()
            },
            Op::Sec => {
                assert(opd == Operand::Implied || true);
                self.sec()
            },
            Op::Cli => {
                assert(opd == Operand::Implied || true);
                self.cli()
            },
            Op::Sei => {
                assert(opd == Operand::Implied || true);
                self.sei()
            },
            Op::Clv => {
                assert(opd == Operand::Implied || true);
                self.clv()
            },
            Op::Cld => {
                assert(opd == Operand::Implied || true);
                self.cld()
            },
            Op::Sed => {
                assert(opd == Operand::Implied || true);
                self.sed()
            },
            Op::Bpl => {
                assert(opd == Operand::Implied || true);
                self.bpl()
            },
            Op::Bmi => {
                assert(opd == Operand::Implied || true);
                self.bmi()
            },
            Op::Bvc => {
                assert(opd == Operand::Implied || true);
                self.bvc()
            },
            Op::Bvs => {
                assert(opd == Operand::Implied || true);
                self.bvs()
            },
            Op::Bcc => {
                assert(opd == Operand::Implied || true);
                self.bcc()
            },
            Op::Bcs => {
                assert(opd == Operand::Implied || true);
                self.bcs()
            },
            Op::Bne => {
                assert(opd == Operand::Implied || true);
                self.bne()
            },
            Op::Beq => {
                assert(opd == Operand::Implied || true);
                self.beq()
            },
            Op::Jmp => {
                assert(opd == Operand::Implied || true);
                self.jmp()
            },
            Op::Jmpi => {
                assert(opd == Operand::Implied || true);
                self.jmpi()
            },
            Op::Jsr => {
                assert(opd == Operand::Implied || true);
                self.jsr()
            },
            Op::Rts => {
                assert(opd == Operand::Implied || true);
                self.rts()
            },
            Op::Brk => {
                assert(opd == Operand::Implied || true);
                self.brk()
            },
            Op::Rti => {
                assert(opd == Operand::Implied || true);
                self.rti()
            },
            Op::Pha => {
                assert(opd == Operand::Implied || true);
                self.pha()
            },
            Op::Pla => {
                assert(opd == Operand::Implied || true);
                self.pla()
            },
            Op::Php => {
                assert(opd == Operand::Implied || true);
                self.php()
            },
            Op::Plp => {
                assert(opd == Operand::Implied || true);
                self.plp()
            },
            Op::Nop => {
                assert(opd == Operand::Implied || true);
                self.nop()
            },
        }
    }

    /// The main fetch-and-decode routine.
    pub fn step(&mut self)
        requires
            old(self).spec_step() is Some,
        ensures
            old(self).spec_step() == Some(*final(self)),
    {
        let op = self.loadb_bump_pc();
        match decode(op) {
            Some((o, mode)) => {
                let opd = self.operand(mode);
                self.execute(o, opd);
                self.cy = self.cy + CYCLE_TABLE[op as usize] as u64;
            },
            None => {},
        }
    }

    /// External interfaces
    pub fn reset(&mut self)
        requires
            old(self).spec_reset() is Some,
        ensures
            old(self).spec_reset() == Some(*final(self)),
    {
        self.regs.pc = self.loadw(RESET_VECTOR);
    }

    pub fn nmi(&mut self)
        requires
            old(self).spec_nmi() is Some,
        ensures
            old(self).spec_nmi() == Some(*final(self)),
    {
        let (pc, flags) = (self.regs.pc, self.regs.flags);
        self.pushw(pc);
        let flags = self.regs.flags;
        self.pushb(flags);
        self.regs.pc = self.loadw(NMI_VECTOR);
    }

    pub fn irq(&mut self)
        requires
            old(self).spec_irq() is Some,
        ensures
            old(self).spec_irq() == Some(*final(self)),
    {
        if self.get_flag(IRQ_FLAG) {
            return;
        }
        let pc = self.regs.pc;
        self.pushw(pc);
        let flags = self.regs.flags;
        self.pushb(flags);
        self.regs.pc = self.loadw(BRK_VECTOR);
    }
}

//
// Savestates
//

/// The registers in the order a, x, y, s, flags, pc.
impl Save for Regs {
    open spec fn spec_saved(&self) -> Seq<u8> {
        self.a.spec_saved()
            + self.x.spec_saved()
            + self.y.spec_saved()
            + self.s.spec_saved()
            + self.flags.spec_saved()
            + self.pc.spec_saved()
    }

    open spec fn spec_size(&self) -> nat {
        7
    }

    open spec fn spec_loaded(&self, bytes: Seq<u8>) -> Regs {
        Regs {
            a: self.a.spec_loaded(bytes.subrange(0, 1)),
            x: self.x.spec_loaded(bytes.subrange(1, 2)),
            y: self.y.spec_loaded(bytes.subrange(2, 3)),
            s: self.s.spec_loaded(bytes.subrange(3, 4)),
            flags: self.flags.spec_loaded(bytes.subrange(4, 5)),
            pc: self.pc.spec_loaded(bytes.subrange(5, 7)),
        }
    }

    fn save(&self, out: &mut Vec<u8>) {
        self.a.save(out);
        self.x.save(out);
        self.y.save(out);
        self.s.save(out);
        self.flags.save(out);
        self.pc.save(out);
        assert(out@ =~= old(out)@ + self.spec_saved());
    }

    fn load(&mut self, input: &[u8], pos: usize) -> (next: usize) {
        let ghost bytes = input@.subrange(pos as int, pos + old(self).spec_size());
        let p0 = self.a.load(input, pos);
        let p1 = self.x.load(input, p0);
        let p2 = self.y.load(input, p1);
        let p3 = self.s.load(input, p2);
        let p4 = self.flags.load(input, p3);
        let p5 = self.pc.load(input, p4);
        assert(input@.subrange(pos + 0, pos + 1) =~= bytes.subrange(0, 1));
        assert(input@.subrange(pos + 1, pos + 2) =~= bytes.subrange(1, 2));
        assert(input@.subrange(pos + 2, pos + 3) =~= bytes.subrange(2, 3));
        assert(input@.subrange(pos + 3, pos + 4) =~= bytes.subrange(3, 4));
        assert(input@.subrange(pos + 4, pos + 5) =~= bytes.subrange(4, 5));
        assert(input@.subrange(pos + 5, pos + 7) =~= bytes.subrange(5, 7));
        p5
    }
}

/// The cycle count, the registers, then the memory.
impl<M: Mem + Save> Save for Cpu<M> {
    open spec fn spec_saved(&self) -> Seq<u8> {
        self.cy.spec_saved()
            + self.regs.spec_saved()
            + self.mem.spec_saved()
    }

    open spec fn spec_size(&self) -> nat {
        8 + 7 + self.mem.spec_size()
    }

    open spec fn spec_loaded(&self, bytes: Seq<u8>) -> Cpu<M> {
        Cpu {
            cy: self.cy.spec_loaded(bytes.subrange(0, 8)),
            regs: self.regs.spec_loaded(bytes.subrange(8, 15)),
            mem: self.mem.spec_loaded(bytes.subrange(15, 15 + self.mem.spec_size() as int)),
        }
    }

    fn save(&self, out: &mut Vec<u8>) {
        self.cy.save(out);
        self.regs.save(out);
        self.mem.save(out);
        assert(out@ =~= old(out)@ + self.spec_saved());
    }

    fn load(&mut self, input: &[u8], pos: usize) -> (next: usize) {
        let ghost bytes = input@.subrange(pos as int, pos + old(self).spec_size());
        let p0 = self.cy.load(input, pos);
        let p1 = self.regs.load(input, p0);
        let p2 = self.mem.load(input, p1);
        assert(input@.subrange(pos + 0, pos + 8) =~= bytes.subrange(0, 8));
        assert(input@.subrange(pos + 8, pos + 15) =~= bytes.subrange(8, 15));
        assert(input@.subrange(pos + 15, pos + 8 + 7 + old(self).mem.spec_size()) =~= bytes.subrange(15, 15 + old(self).mem.spec_size() as int));
        p2
    }
}


//
// Laws of the stack
//

/// A byte pushed is the byte pulled: after a push and a pull the registers are what they were
/// (the stack pointer included) and the pull gives the pushed byte.  The stack lives in RAM.
/// At S = 0 the push writes $0100 but the pull reads $0200, so S = 0 is left out.
pub proof fn lemma_push_pull_byte(c: Cpu<MemMap>, val: u8)
    requires
        c.regs.s != 0,
    ensures
        c.spec_pushb(val) is Some,
        c.spec_pushb(val).unwrap().spec_popb() == Some((c.spec_pushb(val).unwrap().with_regs(c.regs), val)),
{
    let s = c.regs.s;
    let addr = (0x100 + s) as u16;
    assert(addr < 0x2000);
    let c1 = c.spec_pushb(val).unwrap();
    assert(c1.mem.ram.val@ == c.mem.ram.val@.update((addr % 0x800) as int, val));
    assert((0x100 + c1.regs.s + 1) as u16 == addr);
}

/// A word pushed is the word pulled, with the registers restored.  The push writes below S and
/// the pull reads above the lowered S, which meet when S is at least 2.
pub proof fn lemma_push_pull_word(c: Cpu<MemMap>, val: u16)
    requires
        c.regs.s >= 2,
    ensures
        c.spec_pushw(val) is Some,
        c.spec_pushw(val).unwrap().spec_popw() == Some((c.spec_pushw(val).unwrap().with_regs(c.regs), val)),
{
    let s = c.regs.s;
    let lo_addr = (0x100 + s - 1) as u16;
    let hi_addr = (0x100 + s) as u16;
    let c1 = c.spec_pushw(val).unwrap();
    assert(c1.mem.ram.val@ == c.mem.ram.val@.update((lo_addr % 0x800) as int, (val % 256) as u8).update(
        (hi_addr % 0x800) as int,
        (val / 256) as u8,
    ));
    assert((0x100 + c1.regs.s + 1) as u16 == lo_addr);
    assert(((val % 256) as u8 + ((val / 256) as u8) * 256) as u16 == val);
}

/// A subroutine call and then a return come back to the instruction after the call (its
/// two operand bytes end at PC + 1, so execution resumes at PC + 2), with the stack pointer
/// and the other registers as the call found them.
pub proof fn lemma_call_return(c: Cpu<MemMap>)
    requires
        c.regs.s >= 2,
        c.spec_fetch16() is Some,
    ensures
        c.spec_exec(Op::Jsr, Operand::Implied) is Some,
        c.spec_exec(Op::Jsr, Operand::Implied).unwrap().spec_exec(Op::Rts, Operand::Implied) matches Some(r)
            && r.regs == (Regs { pc: wrap16(c.regs.pc + 2), ..c.regs }),
{
    let (c1, target) = c.spec_fetch16().unwrap();
    let ret = wrap16(c1.regs.pc - 1);
    lemma_push_pull_word(c1, ret);
    let c2 = c1.spec_pushw(ret).unwrap();
    let c3 = c2.with_pc(target);
    assert(c3.spec_popw() == Some((c2.with_regs(c1.regs).with_pc(target).with_regs(Regs { pc: target, ..c1.regs }), ret)));
}


//
// Laws of the savestate encoding
//

/// The registers read back from a savestate exactly as they were saved.
pub proof fn lemma_save_load_regs(r: Regs, any: Regs)
    ensures
        r.spec_saved().len() == r.spec_size(),
        any.spec_loaded(r.spec_saved()) == r,
{
    let b = r.spec_saved();
    crate::util::lemma_save_load_u16(r.pc, any.pc);
    assert(b.subrange(5, 7) =~= r.pc.spec_saved());
    assert(b.subrange(0, 1) =~= seq![r.a]);
    assert(b.subrange(1, 2) =~= seq![r.x]);
    assert(b.subrange(2, 3) =~= seq![r.y]);
    assert(b.subrange(3, 4) =~= seq![r.s]);
    assert(b.subrange(4, 5) =~= seq![r.flags]);
}

/// A CPU with plain RAM reads back from a savestate exactly as it was saved: cycle count,
/// registers and memory.
pub proof fn lemma_save_load_cpu(c: Cpu<crate::mem::Ram>, any: Cpu<crate::mem::Ram>)
    ensures
        c.spec_saved().len() == c.spec_size(),
        any.spec_loaded(c.spec_saved()) == c,
{
    let b = c.spec_saved();
    crate::util::lemma_save_load_u64(c.cy, any.cy);
    lemma_save_load_regs(c.regs, any.regs);
    crate::mem::lemma_save_load_ram(c.mem, any.mem);
    assert(b.subrange(0, 8) =~= c.cy.spec_saved());
    assert(b.subrange(8, 15) =~= c.regs.spec_saved());
    assert(b.subrange(15, 15 + 0x800int) =~= c.mem.spec_saved());
}


//
// Laws of the arithmetic
//

/// Subtraction is addition of the complement: SBC of a byte leaves A and every flag as ADC of
/// the byte with all its bits flipped does, the carry serving as "no borrow".
pub proof fn lemma_sbc_is_adc_of_complement<M: Mem>(c: Cpu<M>, v: u8)
    ensures
        c.spec_sub_value(v) == c.spec_add_value(!v),
{
    let a = c.regs.a;
    assert(!v == 255 - v) by (bit_vector);
    assert(signed(!v) == -signed(v) - 1);
}


//
// Laws of instruction sequencing
//

/// The control transfers: branches, jumps, subroutine calls and returns, BRK and RTI.
pub open spec fn is_control(op: Op) -> bool {
    match op {
        Op::Bpl | Op::Bmi | Op::Bvc | Op::Bvs | Op::Bcc | Op::Bcs | Op::Bne | Op::Beq => true,
        Op::Jmp | Op::Jmpi | Op::Jsr | Op::Rts | Op::Brk | Op::Rti => true,
        _ => false,
    }
}

proof fn lemma_operand_pc<M: Mem>(c: Cpu<M>, mode: Mode)
    requires
        c.spec_operand(mode) is Some,
    ensures
        ({
            let (c2, opd) = c.spec_operand(mode).unwrap();
            &&& c2.regs == (Regs { pc: c2.regs.pc, ..c.regs })
            &&& (mode == Mode::Immediate <==> opd == Operand::Immediate)
            &&& c2.regs.pc == wrap16(c.regs.pc + crate::disasm::operand_len(mode) - if mode == Mode::Immediate { 1int } else { 0 })
        }),
{
}

proof fn lemma_dma_loop_regs<M: Mem>(c: Cpu<M>, addr: int, n: nat)
    requires
        c.spec_dma_loop(addr, n) is Some,
    ensures
        c.spec_dma_loop(addr, n).unwrap().regs == c.regs,
    decreases n,
{
    if n > 0 {
        let (m1, v) = c.mem.load_spec(addr as u16).unwrap();
        let m2 = m1.store_spec(0x2004, v).unwrap();
        lemma_dma_loop_regs(Cpu { cy: (c.cy + 2) as u64, regs: c.regs, mem: m2 }, addr + 1, (n - 1) as nat);
    }
}

proof fn lemma_store_regs<M: Mem>(c: Cpu<M>, addr: u16, v: u8)
    requires
        c.store_spec(addr, v) is Some,
    ensures
        c.store_spec(addr, v).unwrap().regs == c.regs,
{
    if addr == 0x4014 {
        lemma_dma_loop_regs(c, v * 256, 256);
    }
}

proof fn lemma_write_pc<M: Mem>(c: Cpu<M>, opd: Operand, v: u8)
    requires
        c.spec_write(opd, v) is Some,
    ensures
        c.spec_write(opd, v).unwrap().regs.pc == c.regs.pc,
{
    if let Operand::Memory(addr) = opd {
        lemma_store_regs(c, addr, v);
    }
}

proof fn lemma_exec_pc<M: Mem>(c: Cpu<M>, op: Op, opd: Operand)
    requires
        !is_control(op),
        opd == Operand::Immediate ==> crate::disasm::takes_operand(op),
        c.spec_exec(op, opd) is Some,
    ensures
        c.spec_exec(op, opd).unwrap().regs.pc == if opd == Operand::Immediate {
            wrap16(c.regs.pc + 1)
        } else {
            c.regs.pc
        },
{
    let r = c.regs;
    match op {
        Op::Sta | Op::Stx | Op::Sty => {
            let v = if op == Op::Sta { r.a } else if op == Op::Stx { r.x } else { r.y };
            assert(c.spec_exec(op, opd) == c.spec_write(opd, v));
            lemma_write_pc(c, opd, v);
            assert(opd != Operand::Immediate);
        },
        Op::Rol | Op::Ror | Op::Asl | Op::Lsr | Op::Inc | Op::Dec => {
            let (c1, v) = c.spec_read(opd).unwrap();
            let r1 = match op {
                Op::Rol => wrap8(2 * v + if c.flag(CARRY_FLAG) { 1int } else { 0 }),
                Op::Asl => wrap8(2 * v),
                Op::Ror => (v / 2 + if c.flag(CARRY_FLAG) { 0x80int } else { 0 }) as u8,
                Op::Lsr => (v / 2) as u8,
                Op::Inc => wrap8(v + 1),
                _ => wrap8(v - 1),
            };
            let f = match op {
                Op::Rol | Op::Asl => with_zn(with_flag(c1.regs.flags, CARRY_FLAG, v >= 0x80), r1),
                Op::Ror | Op::Lsr => with_zn(with_flag(c1.regs.flags, CARRY_FLAG, v % 2 == 1), r1),
                _ => with_zn(c1.regs.flags, r1),
            };
            lemma_write_pc(c1.with_flags(f), opd, r1);
        },
        Op::Pha => lemma_store_regs(c, (0x100 + r.s) as u16, r.a),
        Op::Php => lemma_store_regs(c, (0x100 + r.s) as u16, r.flags | BREAK_FLAG),
        _ => {},
    }
}

/// Every instruction but the control transfers leaves the program counter just past its
/// opcode and operand bytes.
pub proof fn lemma_step_pc<M: Mem>(c: Cpu<M>)
    requires
        c.spec_step() is Some,
    ensures
        c.spec_fetch8() matches Some((_, opcode)) && spec_decode(opcode) matches Some((op, mode))
            && (!is_control(op) ==> c.spec_step().unwrap().regs.pc == wrap16(
                c.regs.pc + 1 + crate::disasm::operand_len(mode),
            )),
{
    let (c1, opcode) = c.spec_fetch8().unwrap();
    let (op, mode) = spec_decode(opcode).unwrap();
    lemma_operand_pc(c1, mode);
    let (c2, opd) = c1.spec_operand(mode).unwrap();
    assert(mode == Mode::Immediate ==> crate::disasm::takes_operand(op));
    if !is_control(op) {
        lemma_exec_pc(c2, op, opd);
    }
}


/// A savestate of the machine reads back with the cycle count, the registers, the RAM and the
/// APU state it saved (as `lemma_save_load_memmap` gives it); the PPU, the pad, the
/// cartridge and the APU's sample buffers are those of the machine it is loaded into.
pub proof fn lemma_save_load_machine(c: Cpu<MemMap>, any: Cpu<MemMap>)
    ensures
        c.spec_saved().len() == c.spec_size(),
        any.spec_loaded(c.spec_saved()) == (Cpu {
            cy: c.cy,
            regs: c.regs,
            mem: MemMap {
                ram: c.mem.ram,
                apu: crate::apu::Apu {
                    regs: crate::apu::restored_regs(c.mem.apu.regs, any.mem.apu.regs),
                    cy: c.mem.apu.cy,
                    ticks: c.mem.apu.ticks,
                    ..any.mem.apu
                },
                ..any.mem
            },
        }),
{
    let b = c.spec_saved();
    crate::util::lemma_save_load_u64(c.cy, any.cy);
    lemma_save_load_regs(c.regs, any.regs);
    crate::mem::lemma_save_load_memmap(c.mem, any.mem);
    assert(b.subrange(0, 8) =~= c.cy.spec_saved());
    assert(b.subrange(8, 15) =~= c.regs.spec_saved());
    assert(b.subrange(15, 15 + 2132int) =~= c.mem.spec_saved());
}


//
// Laws of comparison
//

proof fn lemma_flag_bits(f: u8)
    ensures
        (f | 2) & 1 == f & 1,
        (f & !2u8) & 1 == f & 1,
        (f | 0x80) & 1 == f & 1,
        (f & !0x80u8) & 1 == f & 1,
        (f | 1) & 1 != 0,
        (f & !1u8) & 1 == 0,
        (f | 2) & 2 != 0,
        (f & !2u8) & 2 == 0,
        (f | 0x80) & 2 == f & 2,
        (f & !0x80u8) & 2 == f & 2,
        (f | 0x80) & 0x80 != 0,
        (f & !0x80u8) & 0x80 == 0,
        (f | 0x40) & 1 == f & 1,
        (f & !0x40u8) & 1 == f & 1,
        (f | 0x40) & 0x40 != 0,
        (f & !0x40u8) & 0x40 == 0,
        (f | 2) & 0x40 == f & 0x40,
        (f & !2u8) & 0x40 == f & 0x40,
        (f | 0x80) & 0x40 == f & 0x40,
        (f & !0x80u8) & 0x40 == f & 0x40,
{
    assert({
        &&& (f | 2) & 1 == f & 1
        &&& (f & !2u8) & 1 == f & 1
        &&& (f | 0x80) & 1 == f & 1
        &&& (f & !0x80u8) & 1 == f & 1
        &&& (f | 1) & 1 != 0
        &&& (f & !1u8) & 1 == 0
        &&& (f | 2) & 2 != 0
        &&& (f & !2u8) & 2 == 0
        &&& (f | 0x80) & 2 == f & 2
        &&& (f & !0x80u8) & 2 == f & 2
        &&& (f | 0x80) & 0x80 != 0
        &&& (f & !0x80u8) & 0x80 == 0
        &&& (f | 0x40) & 1 == f & 1
        &&& (f & !0x40u8) & 1 == f & 1
        &&& (f | 0x40) & 0x40 != 0
        &&& (f & !0x40u8) & 0x40 == 0
        &&& (f | 2) & 0x40 == f & 0x40
        &&& (f & !2u8) & 0x40 == f & 0x40
        &&& (f | 0x80) & 0x40 == f & 0x40
        &&& (f & !0x80u8) & 0x40 == f & 0x40
    }) by (bit_vector);
}

/// CMP, CPX and CPY compare a register with the operand, read unsigned: carry is set exactly
/// when the register is at least the operand (equal values set it), zero exactly when they are
/// equal, and negative is bit 7 of their difference modulo 256.  Only the status changes.
pub proof fn lemma_compare_flags<M: Mem>(c: Cpu<M>, op: Op, opd: Operand)
    requires
        op == Op::Cmp || op == Op::Cpx || op == Op::Cpy,
        c.spec_read(opd) is Some,
    ensures
        ({
            let reg = if op == Op::Cmp { c.regs.a } else if op == Op::Cpx { c.regs.x } else { c.regs.y };
            let (c1, v) = c.spec_read(opd).unwrap();
            &&& c.spec_exec(op, opd) matches Some(c2)
            &&& ((c2.regs.flags & 1) != 0) == (reg >= v)
            &&& ((c2.regs.flags & 2) != 0) == (reg == v)
            &&& ((c2.regs.flags & 0x80) != 0) == ((reg - v + 256) % 256 >= 0x80)
            &&& c2.regs == (Regs { flags: c2.regs.flags, ..c1.regs })
            &&& c2.mem == c1.mem
        }),
{
    let reg = if op == Op::Cmp { c.regs.a } else if op == Op::Cpx { c.regs.x } else { c.regs.y };
    let (c1, v) = c.spec_read(opd).unwrap();
    let f0 = c1.regs.flags;
    let f1 = with_flag(f0, CARRY_FLAG, reg >= v);
    let d = wrap8(reg - v);
    let f2 = with_flag(f1, ZERO_FLAG, d == 0);
    let f3 = with_flag(f2, NEGATIVE_FLAG, d >= 0x80);
    lemma_flag_bits(f0);
    lemma_flag_bits(f1);
    lemma_flag_bits(f2);
    assert(with_zn(f1, d) == f3);
    assert(CARRY_FLAG == 1 && ZERO_FLAG == 2 && NEGATIVE_FLAG == 0x80) by (bit_vector);
}


//
// Laws of addition and branching
//

/// ADC adds the operand and the carry to A, read unsigned: A becomes the sum modulo 256,
/// carry tells that the sum passed 255, overflow that the sum of the operands read as
/// two's-complement bytes left -128..127, zero and negative describe the new A.  The other
/// registers stay.
pub proof fn lemma_add_flags<M: Mem>(c: Cpu<M>, v: u8)
    ensures
        ({
            let a = c.regs.a;
            let cin: int = if c.regs.flags & 1 != 0 { 1 } else { 0 };
            let sum = a + v + cin;
            let sa: int = if a < 128 { a as int } else { a - 256 };
            let sv: int = if v < 128 { v as int } else { v - 256 };
            let r = c.spec_add_value(v);
            &&& r.regs.a == sum % 256
            &&& ((r.regs.flags & 1) != 0) == (sum > 255)
            &&& ((r.regs.flags & 0x40) != 0) == (sa + sv + cin < -128 || sa + sv + cin > 127)
            &&& ((r.regs.flags & 2) != 0) == (sum % 256 == 0)
            &&& ((r.regs.flags & 0x80) != 0) == (sum % 256 >= 128)
            &&& r.regs == (Regs { a: r.regs.a, flags: r.regs.flags, ..c.regs })
            &&& r.mem == c.mem && r.cy == c.cy
        }),
{
    let a = c.regs.a;
    let cin: int = if c.flag(CARRY_FLAG) { 1 } else { 0 };
    let sum = a + v + cin;
    let f0 = c.regs.flags;
    let f1 = with_flag(f0, CARRY_FLAG, sum > 0xff);
    let f2 = with_flag(f1, OVERFLOW_FLAG, signed(a) + signed(v) + cin < -128 || signed(a) + signed(v) + cin > 127);
    let rr = wrap8(sum);
    lemma_flag_bits(f0);
    lemma_flag_bits(f1);
    lemma_flag_bits(f2);
    lemma_flag_bits(with_flag(f2, ZERO_FLAG, rr == 0));
    assert(CARRY_FLAG == 1 && ZERO_FLAG == 2 && OVERFLOW_FLAG == 0x40 && NEGATIVE_FLAG == 0x80) by (bit_vector);
}

/// The flag that a branch opcode `xxy10000` tests: N, V, C, Z for `xx` = 0, 1, 2, 3.
pub open spec fn branch_flag(b: u8) -> u8 {
    let xx = b / 64;
    if xx == 0 { 0x80 } else if xx == 1 { 0x40 } else if xx == 2 { 0x01 } else { 0x02 }
}

/// A branch opcode `xxy10000` is taken exactly when the flag that `xx` names equals `y`: then
/// the displacement byte, read as a signed byte, is added to the address after it; otherwise
/// execution goes on after the displacement.
pub proof fn lemma_branch_taken<M: Mem>(c: Cpu<M>, b: u8)
    requires
        b % 32 == 0x10,
        c.spec_fetch8() is Some,
    ensures
        ({
            let (c1, disp) = c.spec_fetch8().unwrap();
            let taken = ((c.regs.flags & branch_flag(b)) != 0) == ((b / 32) % 2 == 1);
            let sd: int = if disp < 128 { disp as int } else { disp - 256 };
            &&& spec_decode(b) matches Some((op, mode)) && mode == Mode::Implied
            &&& c.spec_exec(spec_decode(b).unwrap().0, Operand::Implied) == Some(
                if taken { c1.with_pc(wrap16(c1.regs.pc + sd)) } else { c1 },
            )
        }),
{
    assert(NEGATIVE_FLAG == 0x80 && OVERFLOW_FLAG == 0x40 && CARRY_FLAG == 1 && ZERO_FLAG == 2) by (bit_vector);
}


/// The shifts and rotates on the accumulator: ASL doubles A (modulo 256), ROL also brings the
/// carry into bit 0, LSR halves A, ROR also brings the carry into bit 7; the carry receives
/// the bit shifted out (bit 7 for the left shifts, bit 0 for the right ones), and zero and
/// negative describe the new A.
pub proof fn lemma_shift_accumulator<M: Mem>(c: Cpu<M>, op: Op)
    requires
        op == Op::Asl || op == Op::Rol || op == Op::Lsr || op == Op::Ror,
    ensures
        ({
            let a = c.regs.a;
            let cin: int = if c.regs.flags & 1 != 0 { 1 } else { 0 };
            let left = op == Op::Asl || op == Op::Rol;
            let rot = op == Op::Rol || op == Op::Ror;
            let r: int = if left { (2 * a + if rot { cin } else { 0 }) % 256 } else { a / 2 + if rot {
                128 * cin
            } else {
                0
            } };
            let out = if left { a >= 128 } else { a % 2 == 1 };
            &&& c.spec_exec(op, Operand::Accumulator) matches Some(c2)
            &&& c2.regs.a == r
            &&& ((c2.regs.flags & 1) != 0) == out
            &&& ((c2.regs.flags & 2) != 0) == (r == 0)
            &&& ((c2.regs.flags & 0x80) != 0) == (r >= 128)
            &&& c2.regs == (Regs { a: c2.regs.a, flags: c2.regs.flags, ..c.regs })
            &&& c2.mem == c.mem && c2.cy == c.cy
        }),
{
    let a = c.regs.a;
    let f0 = c.regs.flags;
    let left = op == Op::Asl || op == Op::Rol;
    let out = if left { a >= 0x80 } else { a % 2 == 1 };
    let f1 = with_flag(f0, CARRY_FLAG, out);
    lemma_flag_bits(f0);
    lemma_flag_bits(f1);
    let r: u8 = if left { wrap8(2 * a + if (op == Op::Rol && c.flag(CARRY_FLAG)) { 1int } else { 0 }) } else {
        (a / 2 + if (op == Op::Ror && c.flag(CARRY_FLAG)) { 0x80int } else { 0 }) as u8
    };
    lemma_flag_bits(with_flag(f1, ZERO_FLAG, r == 0));
    assert(CARRY_FLAG == 1 && ZERO_FLAG == 2 && NEGATIVE_FLAG == 0x80) by (bit_vector);
}

} // verus!
