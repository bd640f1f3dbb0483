use nes::disasm::Disassembler;
use nes::mem::{Mem, Ram};

fn disassemble(code: &[u8]) -> (String, u16) {
    let mut ram = Ram::new();
    for (i, b) in code.iter().enumerate() {
        ram.storeb(0x0300 + i as u16, *b);
    }
    let mut d = Disassembler { pc: 0x0300, mem: ram };
    let s = d.disassemble();
    (s, d.pc)
}

#[test]
fn disassembles_addressing_modes() {
    assert_eq!(disassemble(&[0xa9, 0x10]), ("LDA #$10".to_string(), 0x0302));
    assert_eq!(disassemble(&[0xa5, 0xff]), ("LDA $FF".to_string(), 0x0302));
    assert_eq!(disassemble(&[0xb5, 0x0a]), ("LDA $0A,X".to_string(), 0x0302));
    assert_eq!(disassemble(&[0xb6, 0x0a]), ("LDX $0A,Y".to_string(), 0x0302));
    assert_eq!(disassemble(&[0x8d, 0x34, 0x12]), ("STA $1234".to_string(), 0x0303));
    assert_eq!(disassemble(&[0xbd, 0xcd, 0xab]), ("LDA $ABCD,X".to_string(), 0x0303));
    assert_eq!(disassemble(&[0x79, 0x00, 0x80]), ("ADC $8000,Y".to_string(), 0x0303));
    assert_eq!(disassemble(&[0xa1, 0x20]), ("LDA ($20,X)".to_string(), 0x0302));
    assert_eq!(disassemble(&[0xb1, 0x20]), ("LDA ($20),Y".to_string(), 0x0302));
    assert_eq!(disassemble(&[0x0a]), ("ASL ".to_string(), 0x0301));
}

#[test]
fn disassembles_implied_and_control_flow() {
    assert_eq!(disassemble(&[0xe8]), ("INX".to_string(), 0x0301));
    assert_eq!(disassemble(&[0xea]), ("NOP".to_string(), 0x0301));
    assert_eq!(disassemble(&[0x60]), ("RTS".to_string(), 0x0301));
    // Control transfers show a placeholder and read only the opcode.
    assert_eq!(disassemble(&[0xd0, 0x05]), ("BNE xx".to_string(), 0x0301));
    assert_eq!(disassemble(&[0x4c, 0x00, 0x80]), ("JMP xx".to_string(), 0x0301));
    assert_eq!(disassemble(&[0x6c, 0x00, 0x80]), ("JMP (xx)".to_string(), 0x0301));
    assert_eq!(disassemble(&[0x20, 0x00, 0x80]), ("JSR xx".to_string(), 0x0301));
}

#[test]
fn disassembles_a_sequence() {
    let mut ram = Ram::new();
    for (i, b) in [0xa2u8, 0x00, 0xe8, 0xe0, 0x08].iter().enumerate() {
        ram.storeb(0x0400 + i as u16, *b);
    }
    let mut d = Disassembler { pc: 0x0400, mem: ram };
    assert_eq!(d.disassemble(), "LDX #$00");
    assert_eq!(d.disassemble(), "INX");
    assert_eq!(d.disassemble(), "CPX #$08");
    assert_eq!(d.pc, 0x0405);
}
