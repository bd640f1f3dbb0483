use nes::cpu::{decode, Cpu, Mode, Op, Regs};
use nes::mem::{Mem, Ram};
use nes::util::Save;

/// A CPU over plain RAM with `code` placed at `origin` and the program counter there.
fn cpu_with_code(origin: u16, code: &[u8]) -> Cpu<Ram> {
    let mut cpu = Cpu::new(Ram::new());
    for (i, b) in code.iter().enumerate() {
        cpu.mem.storeb(origin + i as u16, *b);
    }
    cpu.regs.pc = origin;
    cpu
}

#[test]
fn power_on_registers() {
    let r = Regs::new();
    assert_eq!((r.a, r.x, r.y, r.s, r.flags, r.pc), (0, 0, 0, 0xfd, 0x24, 0xc000));
    let cpu = Cpu::new(Ram::new());
    assert_eq!(cpu.cy, 0);
    assert_eq!(cpu.regs.pc, 0xc000);
}

#[test]
fn decode_documented_opcodes() {
    assert!(decode(0xa9) == Some((Op::Lda, Mode::Immediate)));
    assert!(decode(0x8d) == Some((Op::Sta, Mode::Absolute)));
    assert!(decode(0xb1) == Some((Op::Lda, Mode::IndirectIndexedY)));
    assert!(decode(0x96) == Some((Op::Stx, Mode::ZeroPageY)));
    assert!(decode(0x0a) == Some((Op::Asl, Mode::Accumulator)));
    assert!(decode(0x6c) == Some((Op::Jmpi, Mode::Implied)));
    assert!(decode(0xea) == Some((Op::Nop, Mode::Implied)));
    assert!(decode(0x02).is_none());
    assert!(decode(0xff).is_none());
    let documented = (0..=255u8).filter(|op| decode(*op).is_some()).count();
    assert_eq!(documented, 151);
}

#[test]
fn lda_immediate_sets_negative() {
    let mut cpu = cpu_with_code(0x0200, &[0xa9, 0x80]);
    cpu.step();
    assert_eq!(cpu.regs.a, 0x80);
    assert_eq!(cpu.regs.pc, 0x0202);
    assert_eq!(cpu.cy, 2);
    assert!(cpu.regs.flags & 0x80 != 0);
    assert!(cpu.regs.flags & 0x02 == 0);
}

#[test]
fn lda_zero_sets_zero_flag() {
    let mut cpu = cpu_with_code(0x0200, &[0xa9, 0x00]);
    cpu.step();
    assert!(cpu.regs.flags & 0x02 != 0);
    assert!(cpu.regs.flags & 0x80 == 0);
}

#[test]
fn adc_signed_overflow() {
    // CLC; LDA #$50; ADC #$50
    let mut cpu = cpu_with_code(0x0200, &[0x18, 0xa9, 0x50, 0x69, 0x50]);
    cpu.step();
    cpu.step();
    cpu.step();
    assert_eq!(cpu.regs.a, 0xa0);
    assert!(cpu.regs.flags & 0x40 != 0, "V set");
    assert!(cpu.regs.flags & 0x01 == 0, "C clear");
    assert!(cpu.regs.flags & 0x80 != 0, "N set");
}

#[test]
fn adc_carry_out() {
    // SEC; LDA #$FF; ADC #$01
    let mut cpu = cpu_with_code(0x0200, &[0x38, 0xa9, 0xff, 0x69, 0x01]);
    cpu.step();
    cpu.step();
    cpu.step();
    assert_eq!(cpu.regs.a, 0x01);
    assert!(cpu.regs.flags & 0x01 != 0);
    assert!(cpu.regs.flags & 0x40 == 0);
}

#[test]
fn sbc_equals_adc_of_complement() {
    for &(a, v, carry) in &[(0x50u8, 0xf0u8, true), (0x50, 0xb0, true), (0x00, 0x01, false), (0x80, 0x7f, true)] {
        let set_c = if carry { 0x38 } else { 0x18 };
        let mut s = cpu_with_code(0x0200, &[set_c, 0xa9, a, 0xe9, v]);
        let mut d = cpu_with_code(0x0200, &[set_c, 0xa9, a, 0x69, !v]);
        for _ in 0..3 {
            s.step();
            d.step();
        }
        assert_eq!(s.regs.a, d.regs.a);
        assert_eq!(s.regs.flags, d.regs.flags);
    }
}

#[test]
fn sbc_borrow() {
    // SEC; LDA #$50; SBC #$F0 -> $60, borrow (C clear), no overflow
    let mut cpu = cpu_with_code(0x0200, &[0x38, 0xa9, 0x50, 0xe9, 0xf0]);
    cpu.step();
    cpu.step();
    cpu.step();
    assert_eq!(cpu.regs.a, 0x60);
    assert!(cpu.regs.flags & 0x01 == 0);
    assert!(cpu.regs.flags & 0x40 == 0);
}

#[test]
fn jsr_then_rts_returns_after_call() {
    let mut cpu = cpu_with_code(0x0200, &[0x20, 0x00, 0x03]);
    cpu.mem.storeb(0x0300, 0x60);
    let s = cpu.regs.s;
    cpu.step();
    assert_eq!(cpu.regs.pc, 0x0300);
    assert_eq!(cpu.regs.s, s.wrapping_sub(2));
    cpu.step();
    assert_eq!(cpu.regs.pc, 0x0203);
    assert_eq!(cpu.regs.s, s);
    assert_eq!(cpu.cy, 12);
}

#[test]
fn pha_pla_round_trip() {
    // LDA #$42; PHA; LDA #$00; PLA
    let mut cpu = cpu_with_code(0x0200, &[0xa9, 0x42, 0x48, 0xa9, 0x00, 0x68]);
    let s = cpu.regs.s;
    for _ in 0..4 {
        cpu.step();
    }
    assert_eq!(cpu.regs.a, 0x42);
    assert_eq!(cpu.regs.s, s);
}

#[test]
fn php_plp_sets_bit_5_clears_bit_4() {
    // PHP; PLP
    let mut cpu = cpu_with_code(0x0200, &[0x08, 0x28]);
    cpu.regs.flags = 0x00;
    cpu.step();
    // PHP pushes the flags with the break bit set
    assert_eq!(cpu.mem.val[0x1fd], 0x10);
    cpu.step();
    assert_eq!(cpu.regs.flags, 0x20);
}

#[test]
fn branch_taken_backwards() {
    // LDX #$02; DEX; BNE -3
    let mut cpu = cpu_with_code(0x0200, &[0xa2, 0x02, 0xca, 0xd0, 0xfd]);
    cpu.step();
    cpu.step();
    cpu.step();
    assert_eq!(cpu.regs.pc, 0x0202);
    cpu.step();
    cpu.step();
    assert_eq!(cpu.regs.x, 0);
    assert_eq!(cpu.regs.pc, 0x0205);
}

#[test]
fn indirect_jump_stays_in_page() {
    // JMP ($02FF): low byte from $02FF, high byte from $0200 (not $0300)
    let mut cpu = cpu_with_code(0x0400, &[0x6c, 0xff, 0x02]);
    cpu.mem.storeb(0x02ff, 0x34);
    cpu.mem.storeb(0x0200, 0x12);
    cpu.mem.storeb(0x0300, 0x99);
    cpu.step();
    assert_eq!(cpu.regs.pc, 0x1234);
}

#[test]
fn reset_reads_vector() {
    let mut cpu = Cpu::new(Ram::new());
    // $FFFC mirrors to RAM offset $7FC.
    cpu.mem.val[0x7fc] = 0x34;
    cpu.mem.val[0x7fd] = 0x12;
    cpu.reset();
    assert_eq!(cpu.regs.pc, 0x1234);
}

#[test]
fn nmi_pushes_and_jumps() {
    let mut cpu = Cpu::new(Ram::new());
    cpu.mem.val[0x7fa] = 0x00;
    cpu.mem.val[0x7fb] = 0x90;
    cpu.regs.pc = 0x1234;
    cpu.regs.flags = 0x24;
    cpu.nmi();
    assert_eq!(cpu.regs.pc, 0x9000);
    assert_eq!(cpu.regs.s, 0xfa);
    assert_eq!(cpu.mem.val[0x1fd], 0x12);
    assert_eq!(cpu.mem.val[0x1fc], 0x34);
    assert_eq!(cpu.mem.val[0x1fb], 0x24);
}

#[test]
fn irq_ignored_with_interrupts_disabled() {
    let mut cpu = Cpu::new(Ram::new());
    cpu.regs.pc = 0x1234;
    cpu.irq();
    assert_eq!(cpu.regs.pc, 0x1234);
    assert_eq!(cpu.regs.s, 0xfd);
    cpu.regs.flags = 0x20;
    cpu.mem.val[0x7fe] = 0x00;
    cpu.mem.val[0x7ff] = 0x80;
    cpu.irq();
    assert_eq!(cpu.regs.pc, 0x8000);
}

#[test]
fn cpu_savestate_round_trip() {
    let mut cpu = cpu_with_code(0x0200, &[0xa9, 0x42, 0xaa, 0xc8]);
    cpu.step();
    cpu.step();
    cpu.step();
    let mut bytes = Vec::new();
    cpu.save(&mut bytes);
    assert_eq!(bytes.len(), 8 + 7 + 0x800);
    let mut other = Cpu::new(Ram::new());
    let next = other.load(&bytes, 0);
    assert_eq!(next, bytes.len());
    assert_eq!(other.cy, cpu.cy);
    assert!(other.regs == cpu.regs);
    assert!(other.mem.val[..] == cpu.mem.val[..]);
}

#[test]
fn registers_savestate_layout() {
    let r = Regs { a: 1, x: 2, y: 3, s: 4, flags: 5, pc: 0x0706 };
    let mut bytes = Vec::new();
    r.save(&mut bytes);
    assert_eq!(bytes, vec![1, 2, 3, 4, 5, 6, 7]);
}

#[test]
fn dec_wraps_and_inc_memory() {
    // LDX #$00; DEX; INC $10
    let mut cpu = cpu_with_code(0x0200, &[0xa2, 0x00, 0xca, 0xe6, 0x10]);
    cpu.mem.storeb(0x10, 0xff);
    cpu.step();
    cpu.step();
    assert_eq!(cpu.regs.x, 0xff);
    cpu.step();
    assert_eq!(cpu.mem.val[0x10], 0x00);
    assert!(cpu.regs.flags & 0x02 != 0);
}

#[test]
fn straight_line_code_advances_by_instruction_length() {
    // LDA #$01; STA $0300; LDX $10; INX; TAX; ASL A; LDA ($20),Y; NOP
    let code = [0xa9, 0x01, 0x8d, 0x00, 0x03, 0xa6, 0x10, 0xe8, 0xaa, 0x0a, 0xb1, 0x20, 0xea];
    let lengths = [2u16, 3, 2, 1, 1, 1, 2, 1];
    let mut cpu = cpu_with_code(0x0200, &code);
    let mut pc = 0x0200u16;
    for len in lengths {
        cpu.step();
        pc += len;
        assert_eq!(cpu.regs.pc, pc);
    }
    assert_eq!(cpu.mem.val[0x300], 0x01);
}
