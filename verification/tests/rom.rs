use nes::rom::{Rom, RomError};

fn image(prg_banks: u8, chr_banks: u8, flags_6: u8, flags_7: u8) -> Vec<u8> {
    let mut bytes = vec![0x4e, 0x45, 0x53, 0x1a, prg_banks, chr_banks, flags_6, flags_7, 0, 0, 0, 0, 0, 0, 0, 0];
    for i in 0..(prg_banks as usize * 16384) {
        bytes.push((i % 251) as u8);
    }
    for i in 0..(chr_banks as usize * 8192) {
        bytes.push((i % 13) as u8);
    }
    bytes
}

#[test]
fn parses_header_and_banks() {
    let bytes = image(2, 1, 0x14, 0x00);
    let rom = Rom::from_bytes(&bytes).unwrap();
    assert_eq!(rom.header.prg_rom_size, 2);
    assert_eq!(rom.header.chr_rom_size, 1);
    assert_eq!(rom.prg.len(), 32768);
    assert_eq!(rom.chr.len(), 8192);
    assert_eq!(rom.prg[300], (300 % 251) as u8);
    assert_eq!(rom.chr[20], (20 % 13) as u8);
    assert_eq!(rom.header.magic, [0x4e, 0x45, 0x53, 0x1a]);
    assert_eq!(rom.header.zero, [0; 5]);
}

#[test]
fn header_fields() {
    let rom = Rom::from_bytes(&image(1, 0, 0x14, 0x40)).unwrap();
    assert_eq!(rom.header.mapper(), 0x41);
    assert_eq!(rom.header.ines_mapper(), 1);
    assert!(rom.header.trainer());
    let rom = Rom::from_bytes(&image(1, 0, 0x40, 0x00)).unwrap();
    assert_eq!(rom.header.mapper(), 4);
    assert!(!rom.header.trainer());
}

#[test]
fn header_report() {
    let rom = Rom::from_bytes(&image(16, 0, 0x14, 0x40)).unwrap();
    assert_eq!(rom.header.to_str(), "PRG-ROM size: 16\nCHR-ROM size: 0\nMapper: 65/1\nTrainer: Yes");
    let rom = Rom::from_bytes(&image(1, 2, 0x00, 0x00)).unwrap();
    assert_eq!(rom.header.to_str(), "PRG-ROM size: 1\nCHR-ROM size: 2\nMapper: 0/0\nTrainer: No");
}

#[test]
fn header_report_three_digits() {
    let mut bytes = image(0, 0, 0xf0, 0xf0);
    bytes[4] = 200;
    bytes.extend_from_slice(&vec![0u8; 200 * 16384]);
    let rom = Rom::from_bytes(&bytes).unwrap();
    assert_eq!(rom.header.to_str(), "PRG-ROM size: 200\nCHR-ROM size: 0\nMapper: 255/15\nTrainer: No");
}

#[test]
fn rejects_short_header() {
    assert!(matches!(Rom::from_bytes(&[0x4e, 0x45, 0x53]), Err(RomError::Truncated)));
    assert!(matches!(Rom::from_bytes(&[]), Err(RomError::Truncated)));
}

#[test]
fn rejects_bad_magic() {
    let mut bytes = image(1, 1, 0, 0);
    bytes[3] = 0x1b;
    assert!(matches!(Rom::from_bytes(&bytes), Err(RomError::BadMagic)));
}

#[test]
fn rejects_missing_banks() {
    let mut bytes = image(1, 1, 0, 0);
    bytes.pop();
    assert!(matches!(Rom::from_bytes(&bytes), Err(RomError::Truncated)));
}

#[test]
fn extra_bytes_are_ignored() {
    let mut bytes = image(1, 0, 0, 0);
    bytes.push(0xee);
    let rom = Rom::from_bytes(&bytes).unwrap();
    assert_eq!(rom.prg.len(), 16384);
    assert_eq!(rom.chr.len(), 0);
}
