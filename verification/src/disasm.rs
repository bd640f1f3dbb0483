//! A disassembler for the 6502 instruction stream.

use vstd::prelude::*;
use vstd::string::StringExecFns;

use crate::cpu::{Op, Mode, decode, spec_decode};
use crate::mem::{Mem, wrap16, lemma_wrap16};

verus! {

broadcast use lemma_wrap16;

/// The upper-case hexadecimal digit of `n`, for `n` below 16.
pub open spec fn hex_digit(n: int) -> Seq<char> {
    if n == 0 {
        "0"@
    } else if n == 1 {
        "1"@
    } else if n == 2 {
        "2"@
    } else if n == 3 {
        "3"@
    } else if n == 4 {
        "4"@
    } else if n == 5 {
        "5"@
    } else if n == 6 {
        "6"@
    } else if n == 7 {
        "7"@
    } else if n == 8 {
        "8"@
    } else if n == 9 {
        "9"@
    } else if n == 10 {
        "A"@
    } else if n == 11 {
        "B"@
    } else if n == 12 {
        "C"@
    } else if n == 13 {
        "D"@
    } else if n == 14 {
        "E"@
    } else {
        "F"@
    }
}

/// A byte as two hexadecimal digits.
pub open spec fn hex_byte(b: u8) -> Seq<char> {
    hex_digit(b as int / 16) + hex_digit(b as int % 16)
}

/// The three-letter name of an operation.
pub open spec fn mnemonic(op: Op) -> Seq<char> {
    match op {
        Op::Lda => "LDA"@,
        Op::Ldx => "LDX"@,
        Op::Ldy => "LDY"@,
        Op::Sta => "STA"@,
        Op::Stx => "STX"@,
        Op::Sty => "STY"@,
        Op::Adc => "ADC"@,
        Op::Sbc => "SBC"@,
        Op::Cmp => "CMP"@,
        Op::Cpx => "CPX"@,
        Op::Cpy => "CPY"@,
        Op::And => "AND"@,
        Op::Ora => "ORA"@,
        Op::Eor => "EOR"@,
        Op::Bit => "BIT"@,
        Op::Rol => "ROL"@,
        Op::Ror => "ROR"@,
        Op::Asl => "ASL"@,
        Op::Lsr => "LSR"@,
        Op::Inc => "INC"@,
        Op::Dec => "DEC"@,
        Op::Inx => "INX"@,
        Op::Dex => "DEX"@,
        Op::Iny => "INY"@,
        Op::Dey => "DEY"@,
        Op::Tax => "TAX"@,
        Op::Tay => "TAY"@,
        Op::Txa => "TXA"@,
        Op::Tya => "TYA"@,
        Op::Txs => "TXS"@,
        Op::Tsx => "TSX"@,
        Op::Clc => "CLC"@,
        Op::Sec => "SEC"@,
        Op::Cli => "CLI"@,
        Op::Sei => "SEI"@,
        Op::Clv => "CLV"@,
        Op::Cld => "CLD"@,
        Op::Sed => "SED"@,
        Op::Bpl => "BPL"@,
        Op::Bmi => "BMI"@,
        Op::Bvc => "BVC"@,
        Op::Bvs => "BVS"@,
        Op::Bcc => "BCC"@,
        Op::Bcs => "BCS"@,
        Op::Bne => "BNE"@,
        Op::Beq => "BEQ"@,
        Op::Jmp => "JMP"@,
        Op::Jmpi => "JMP"@,
        Op::Jsr => "JSR"@,
        Op::Rts => "RTS"@,
        Op::Brk => "BRK"@,
        Op::Rti => "RTI"@,
        Op::Pha => "PHA"@,
        Op::Pla => "PLA"@,
        Op::Php => "PHP"@,
        Op::Plp => "PLP"@,
        Op::Nop => "NOP"@,
    }
}

/// The operations that are followed by an addressing-mode operand.
pub open spec fn takes_operand(op: Op) -> bool {
    match op {
        Op::Lda => true,
        Op::Ldx => true,
        Op::Ldy => true,
        Op::Sta => true,
        Op::Stx => true,
        Op::Sty => true,
        Op::Adc => true,
        Op::Sbc => true,
        Op::Cmp => true,
        Op::Cpx => true,
        Op::Cpy => true,
        Op::And => true,
        Op::Ora => true,
        Op::Eor => true,
        Op::Bit => true,
        Op::Rol => true,
        Op::Ror => true,
        Op::Asl => true,
        Op::Lsr => true,
        Op::Inc => true,
        Op::Dec => true,
        _ => false,
    }
}

/// What follows the name of an operation that takes no operand: control transfers show a
/// placeholder for their target, the rest nothing.
pub open spec fn operand_placeholder(op: Op) -> Seq<char> {
    match op {
        Op::Bpl | Op::Bmi | Op::Bvc | Op::Bvs | Op::Bcc | Op::Bcs | Op::Bne | Op::Beq => " xx"@,
        Op::Jmp | Op::Jsr => " xx"@,
        Op::Jmpi => " (xx)"@,
        _ => ""@,
    }
}

/// The number of operand bytes that follow the opcode in each addressing mode.
pub open spec fn operand_len(mode: Mode) -> nat {
    match mode {
        Mode::Implied | Mode::Accumulator => 0,
        Mode::Absolute | Mode::AbsoluteX | Mode::AbsoluteY => 2,
        _ => 1,
    }
}

/// The operand as written in assembly: `lo` is the first operand byte, `hi` the second.
pub open spec fn operand_text(mode: Mode, lo: u8, hi: u8) -> Seq<char> {
    match mode {
        Mode::Implied | Mode::Accumulator => ""@,
        Mode::Immediate => "#"@ + "$"@ + hex_byte(lo),
        Mode::ZeroPage => "$"@ + hex_byte(lo),
        Mode::ZeroPageX => "$"@ + hex_byte(lo) + ",X"@,
        Mode::ZeroPageY => "$"@ + hex_byte(lo) + ",Y"@,
        Mode::Absolute => "$"@ + hex_byte(hi) + hex_byte(lo),
        Mode::AbsoluteX => "$"@ + hex_byte(hi) + hex_byte(lo) + ",X"@,
        Mode::AbsoluteY => "$"@ + hex_byte(hi) + hex_byte(lo) + ",Y"@,
        Mode::IndexedIndirectX => "("@ + "$"@ + hex_byte(lo) + ",X)"@,
        Mode::IndirectIndexedY => "("@ + "$"@ + hex_byte(lo) + "),Y"@,
    }
}

/// The text of one instruction.
pub open spec fn instruction_text(op: Op, mode: Mode, lo: u8, hi: u8) -> Seq<char> {
    if takes_operand(op) {
        mnemonic(op) + " "@ + operand_text(mode, lo, hi)
    } else {
        mnemonic(op) + operand_placeholder(op)
    }
}

pub(crate) fn hex_digit_str(n: u8) -> (s: &'static str)
    requires
        n < 16,
    ensures
        s@ == hex_digit(n as int),
{
    match n {
        0 => "0",
        1 => "1",
        2 => "2",
        3 => "3",
        4 => "4",
        5 => "5",
        6 => "6",
        7 => "7",
        8 => "8",
        9 => "9",
        10 => "A",
        11 => "B",
        12 => "C",
        13 => "D",
        14 => "E",
        _ => "F",
    }
}

/// Appends a byte as two hexadecimal digits.
fn push_hex_byte(s: &mut String, b: u8)
    ensures
        final(s)@ == old(s)@ + hex_byte(b),
{
    s.append(hex_digit_str(b / 16));
    s.append(hex_digit_str(b % 16));
}

fn mnemonic_str(op: Op) -> (s: &'static str)
    ensures
        s@ == mnemonic(op),
{
    match op {
        Op::Lda => "LDA",
        Op::Ldx => "LDX",
        Op::Ldy => "LDY",
        Op::Sta => "STA",
        Op::Stx => "STX",
        Op::Sty => "STY",
        Op::Adc => "ADC",
        Op::Sbc => "SBC",
        Op::Cmp => "CMP",
        Op::Cpx => "CPX",
        Op::Cpy => "CPY",
        Op::And => "AND",
        Op::Ora => "ORA",
        Op::Eor => "EOR",
        Op::Bit => "BIT",
        Op::Rol => "ROL",
        Op::Ror => "ROR",
        Op::Asl => "ASL",
        Op::Lsr => "LSR",
        Op::Inc => "INC",
        Op::Dec => "DEC",
        Op::Inx => "INX",
        Op::Dex => "DEX",
        Op::Iny => "INY",
        Op::Dey => "DEY",
        Op::Tax => "TAX",
        Op::Tay => "TAY",
        Op::Txa => "TXA",
        Op::Tya => "TYA",
        Op::Txs => "TXS",
        Op::Tsx => "TSX",
        Op::Clc => "CLC",
        Op::Sec => "SEC",
        Op::Cli => "CLI",
        Op::Sei => "SEI",
        Op::Clv => "CLV",
        Op::Cld => "CLD",
        Op::Sed => "SED",
        Op::Bpl => "BPL",
        Op::Bmi => "BMI",
        Op::Bvc => "BVC",
        Op::Bvs => "BVS",
        Op::Bcc => "BCC",
        Op::Bcs => "BCS",
        Op::Bne => "BNE",
        Op::Beq => "BEQ",
        Op::Jmp => "JMP",
        Op::Jmpi => "JMP",
        Op::Jsr => "JSR",
        Op::Rts => "RTS",
        Op::Brk => "BRK",
        Op::Rti => "RTI",
        Op::Pha => "PHA",
        Op::Pla => "PLA",
        Op::Php => "PHP",
        Op::Plp => "PLP",
        Op::Nop => "NOP",
    }
}

fn placeholder_str(op: Op) -> (s: &'static str)
    ensures
        s@ == operand_placeholder(op),
{
    match op {
        Op::Bpl | Op::Bmi | Op::Bvc | Op::Bvs | Op::Bcc | Op::Bcs | Op::Bne | Op::Beq => " xx",
        Op::Jmp | Op::Jsr => " xx",
        Op::Jmpi => " (xx)",
        _ => "",
    }
}

fn operand_taken(op: Op) -> (r: bool)
    ensures
        r == takes_operand(op),
{
    match op {
        Op::Lda => true,
        Op::Ldx => true,
        Op::Ldy => true,
        Op::Sta => true,
        Op::Stx => true,
        Op::Sty => true,
        Op::Adc => true,
        Op::Sbc => true,
        Op::Cmp => true,
        Op::Cpx => true,
        Op::Cpy => true,
        Op::And => true,
        Op::Ora => true,
        Op::Eor => true,
        Op::Bit => true,
        Op::Rol => true,
        Op::Ror => true,
        Op::Asl => true,
        Op::Lsr => true,
        Op::Inc => true,
        Op::Dec => true,
        _ => false,
    }
}

/// Reads instructions from memory, starting at `pc`.
pub struct Disassembler<M: Mem> {
    pub pc: u16,
    pub mem: M,
}

impl<M: Mem> Disassembler<M> {
    /// Reading the byte at the program counter and moving past it.
    pub open spec fn spec_fetch(self) -> Option<(Self, u8)> {
        match self.mem.load_spec(self.pc) {
            Some((m, v)) => Some((Disassembler { pc: wrap16(self.pc + 1), mem: m }, v)),
            None => None,
        }
    }

    /// The disassembler after one instruction and the instruction's text; `None` when the
    /// opcode is not a documented one or memory does not serve a read.
    pub open spec fn spec_disassemble(self) -> Option<(Self, Seq<char>)> {
        match self.spec_fetch() {
            None => None,
            Some((d1, opcode)) => match spec_decode(opcode) {
                None => None,
                Some((op, mode)) => if operand_len(mode) == 0 {
                    Some((d1, instruction_text(op, mode, 0, 0)))
                } else {
                    match d1.spec_fetch() {
                        None => None,
                        Some((d2, lo)) => if operand_len(mode) == 1 {
                            Some((d2, instruction_text(op, mode, lo, 0)))
                        } else {
                            match d2.spec_fetch() {
                                None => None,
                                Some((d3, hi)) => Some((d3, instruction_text(op, mode, lo, hi))),
                            }
                        },
                    }
                },
            },
        }
    }

    fn loadb_bump_pc(&mut self) -> (val: u8)
        requires
            old(self).spec_fetch() is Some,
        ensures
            old(self).spec_fetch() == Some((*final(self), val)),
    {
        let val = self.mem.loadb(self.pc);
        self.pc = self.pc.wrapping_add(1);
        val
    }

    /// Reads the operand bytes of `mode` and writes them out.
    fn operand(&mut self, mode: Mode) -> (text: String)
        requires
            operand_len(mode) >= 1 ==> old(self).spec_fetch() is Some,
            operand_len(mode) == 2 ==> old(self).spec_fetch().unwrap().0.spec_fetch() is Some,
        ensures
            operand_len(mode) == 0 ==> *final(self) == *old(self) && text@ == operand_text(mode, 0, 0),
            operand_len(mode) == 1 ==> {
                let (d, lo) = old(self).spec_fetch().unwrap();
                *final(self) == d && text@ == operand_text(mode, lo, 0)
            },
            operand_len(mode) == 2 ==> {
                let (d, lo) = old(self).spec_fetch().unwrap();
                let (d2, hi) = d.spec_fetch().unwrap();
                *final(self) == d2 && text@ == operand_text(mode, lo, hi)
            },
    {
        let mut s = String::new();
        match mode {
            Mode::Implied | Mode::Accumulator => {
                proof {
                    reveal_strlit("");
                }
            },
            Mode::Immediate => {
                let lo = self.loadb_bump_pc();
                s.append("#");
                s.append("$");
                push_hex_byte(&mut s, lo);
            },
            Mode::ZeroPage => {
                let lo = self.loadb_bump_pc();
                s.append("$");
                push_hex_byte(&mut s, lo);
            },
            Mode::ZeroPageX => {
                let lo = self.loadb_bump_pc();
                s.append("$");
                push_hex_byte(&mut s, lo);
                s.append(",X");
            },
            Mode::ZeroPageY => {
                let lo = self.loadb_bump_pc();
                s.append("$");
                push_hex_byte(&mut s, lo);
                s.append(",Y");
            },
            Mode::Absolute => {
                let lo = self.loadb_bump_pc();
                let hi = self.loadb_bump_pc();
                s.append("$");
                push_hex_byte(&mut s, hi);
                push_hex_byte(&mut s, lo);
            },
            Mode::AbsoluteX => {
                let lo = self.loadb_bump_pc();
                let hi = self.loadb_bump_pc();
                s.append("$");
                push_hex_byte(&mut s, hi);
                push_hex_byte(&mut s, lo);
                s.append(",X");
            },
            Mode::AbsoluteY => {
                let lo = self.loadb_bump_pc();
                let hi = self.loadb_bump_pc();
                s.append("$");
                push_hex_byte(&mut s, hi);
                push_hex_byte(&mut s, lo);
                s.append(",Y");
            },
            Mode::IndexedIndirectX => {
                let lo = self.loadb_bump_pc();
                s.append("(");
                s.append("$");
                push_hex_byte(&mut s, lo);
                s.append(",X)");
            },
            Mode::IndirectIndexedY => {
                let lo = self.loadb_bump_pc();
                s.append("(");
                s.append("$");
                push_hex_byte(&mut s, lo);
                s.append("),Y");
            },
        }
        s
    }

    /// Disassembles the instruction at the program counter and moves past it.
    pub fn disassemble(&mut self) -> (text: String)
        requires
            old(self).spec_disassemble() is Some,
        ensures
            old(self).spec_disassemble() == Some((*final(self), text@)),
    {
        let opcode = self.loadb_bump_pc();
        match decode(opcode) {
            Some((op, mode)) => {
                let operand = self.operand(mode);
                let mut s = String::from_str(mnemonic_str(op));
                if operand_taken(op) {
                    s.append(" ");
                    s.append(operand.as_str());
                } else {
                    s.append(placeholder_str(op));
                }
                s
            },
            None => {
                proof {
                    assert(false);
                }
                String::new()
            },
        }
    }
}


/// Disassembling moves the program counter past exactly one instruction: the opcode and the
/// operand bytes of its addressing mode (control transfers, whose operands are not shown, are
/// decoded in the implied mode and take none).
pub proof fn lemma_disassemble_advances<M: Mem>(d: Disassembler<M>)
    requires
        d.spec_disassemble() is Some,
    ensures
        d.mem.load_spec(d.pc) matches Some((_, opcode)) && spec_decode(opcode) matches Some((op, mode))
            && d.spec_disassemble().unwrap().0.pc == wrap16(d.pc + 1 + operand_len(mode)),
{
    let (d1, opcode) = d.spec_fetch().unwrap();
    let (op, mode) = spec_decode(opcode).unwrap();
    if operand_len(mode) >= 1 {
        let (d2, lo) = d1.spec_fetch().unwrap();
        assert(d2.pc == wrap16(d.pc + 2));
        if operand_len(mode) == 2 {
            let (d3, hi) = d2.spec_fetch().unwrap();
            assert(d3.pc == wrap16(d.pc + 3));
        }
    }
}


//
// Laws of the mnemonics
//

/// The mnemonic of an opcode read as `aaabbbcc`, as the 6502's opcode matrix names them:
/// `cc` picks the column group, `aaa` the operation; in the `cc = 00` group the branches
/// (`bbb = 100`) name the flag and the value that `aaa` tests.
pub open spec fn opcode_mnemonic(b: u8) -> Seq<char> {
    let aaa = b / 32;
    let bbb = (b / 4) % 8;
    let cc = b % 4;
    if cc == 1 {
        if aaa == 0 { "ORA"@ } else if aaa == 1 { "AND"@ } else if aaa == 2 { "EOR"@ } else if aaa == 3 { "ADC"@ } else if aaa == 4 { "STA"@ } else if aaa == 5 { "LDA"@ } else if aaa == 6 { "CMP"@ } else { "SBC"@ }
    } else if cc == 2 {
        if bbb == 2 {
            if aaa == 0 { "ASL"@ } else if aaa == 1 { "ROL"@ } else if aaa == 2 { "LSR"@ } else if aaa == 3 { "ROR"@ } else if aaa == 4 { "TXA"@ } else if aaa == 5 { "TAX"@ } else if aaa == 6 { "DEX"@ } else { "NOP"@ }
        } else if bbb == 6 {
            if aaa == 4 { "TXS"@ } else { "TSX"@ }
        } else {
            if aaa == 0 { "ASL"@ } else if aaa == 1 { "ROL"@ } else if aaa == 2 { "LSR"@ } else if aaa == 3 { "ROR"@ } else if aaa == 4 { "STX"@ } else if aaa == 5 { "LDX"@ } else if aaa == 6 { "DEC"@ } else { "INC"@ }
        }
    } else if bbb == 4 {
        if aaa == 0 { "BPL"@ } else if aaa == 1 { "BMI"@ } else if aaa == 2 { "BVC"@ } else if aaa == 3 { "BVS"@ } else if aaa == 4 { "BCC"@ } else if aaa == 5 { "BCS"@ } else if aaa == 6 { "BNE"@ } else { "BEQ"@ }
    } else if bbb == 6 {
        if aaa == 0 { "CLC"@ } else if aaa == 1 { "SEC"@ } else if aaa == 2 { "CLI"@ } else if aaa == 3 { "SEI"@ } else if aaa == 4 { "TYA"@ } else if aaa == 5 { "CLV"@ } else if aaa == 6 { "CLD"@ } else { "SED"@ }
    } else if bbb == 2 {
        if aaa == 0 { "PHP"@ } else if aaa == 1 { "PLP"@ } else if aaa == 2 { "PHA"@ } else if aaa == 3 { "PLA"@ } else if aaa == 4 { "DEY"@ } else if aaa == 5 { "TAY"@ } else if aaa == 6 { "INY"@ } else { "INX"@ }
    } else if bbb == 0 {
        if aaa == 0 { "BRK"@ } else if aaa == 1 { "JSR"@ } else if aaa == 2 { "RTI"@ } else if aaa == 3 { "RTS"@ } else if aaa == 4 { "???"@ } else if aaa == 5 { "LDY"@ } else if aaa == 6 { "CPY"@ } else { "CPX"@ }
    } else {
        if aaa == 0 { "???"@ } else if aaa == 1 { "BIT"@ } else if aaa == 2 { "JMP"@ } else if aaa == 3 { "JMP"@ } else if aaa == 4 { "STY"@ } else if aaa == 5 { "LDY"@ } else if aaa == 6 { "CPY"@ } else { "CPX"@ }
    }
}

/// Every documented opcode is shown under its name in the 6502's opcode matrix, and the text
/// of the instruction starts with that name.
pub proof fn lemma_mnemonic_of_opcode(b: u8)
    requires
        spec_decode(b) is Some,
    ensures
        ({
            let (op, mode) = spec_decode(b).unwrap();
            &&& mnemonic(op) == opcode_mnemonic(b)
            &&& forall|lo: u8, hi: u8| #[trigger] instruction_text(op, mode, lo, hi) == opcode_mnemonic(b) + (if takes_operand(op) {
                " "@ + operand_text(mode, lo, hi)
            } else {
                operand_placeholder(op)
            })
        }),
{
    let (op, mode) = spec_decode(b).unwrap();
    assert forall|lo: u8, hi: u8| #[trigger] instruction_text(op, mode, lo, hi) == mnemonic(op) + (if takes_operand(op) {
        " "@ + operand_text(mode, lo, hi)
    } else {
        operand_placeholder(op)
    }) by {
        if takes_operand(op) {
            assert(mnemonic(op) + " "@ + operand_text(mode, lo, hi) =~= mnemonic(op) + (" "@ + operand_text(mode, lo, hi)));
        }
    }
}

} // verus!
