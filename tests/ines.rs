use runes::cartridge::MirrorType;
use runes::ines::{load_ines, load_rom, parse_ines, InesError};

fn image(prg: u8, chr: u8, flags6: u8, flags7: u8, trainer: bool) -> Vec<u8> {
    let mut v = vec![0x4e, 0x45, 0x53, 0x1a, prg, chr, flags6, flags7, 0, 0, 0, 0, 0, 0, 0, 0];
    if trainer {
        v.extend(std::iter::repeat(0xee).take(512));
    }
    for i in 0..(prg as usize * 0x4000) {
        v.push((i >> 8) as u8);
    }
    for i in 0..(chr as usize * 0x2000) {
        v.push(i as u8 ^ 0x5a);
    }
    v
}

#[test]
fn header_errors() {
    assert!(matches!(parse_ines(&vec![0x4e; 10]), Err(InesError::TooShort)));
    let mut bad = image(1, 1, 0, 0, false);
    bad[3] = 0;
    assert!(matches!(parse_ines(&bad), Err(InesError::BadMagic)));
    assert!(matches!(parse_ines(&image(0, 1, 0, 0, false)), Err(InesError::NoPrg)));
    let mut short = image(1, 1, 0, 0, false);
    short.pop();
    assert!(matches!(parse_ines(&short), Err(InesError::Truncated)));
}

#[test]
fn fields_and_trainer() {
    let rom = parse_ines(&image(2, 0, 0x45, 0x40, true)).ok().unwrap();
    assert_eq!(rom.prg.len(), 0x8000);
    assert_eq!(rom.prg[0x100], 1);
    assert_eq!(rom.chr, vec![0u8; 0x2000]);
    assert_eq!(rom.mapper_id, 0x44);
    assert!(matches!(rom.mirror, MirrorType::Vertical));
    let rom = parse_ines(&image(1, 1, 0x18, 0x00, false)).ok().unwrap();
    assert_eq!(rom.mapper_id, 1);
    assert!(matches!(rom.mirror, MirrorType::Single0));
    assert_eq!(rom.chr[1], 1 ^ 0x5a);
}

#[test]
fn mapper_selection() {
    assert!(matches!(load_ines(&image(1, 1, 0x30, 0, false)), Err(InesError::UnsupportedMapper(3))));
    let m = load_ines(&image(1, 1, 0x10, 0, false)).ok().unwrap();
    assert_eq!(m.read(0xc000), m.read(0x8000));
    let m = load_ines(&image(2, 1, 0x10, 0, false)).ok().unwrap();
    assert_eq!(m.read(0x8100), 1);
    let rom = parse_ines(&image(2, 1, 0x40, 0, false)).ok().unwrap();
    let m = load_rom(rom).ok().unwrap();
    assert_eq!(m.read(0xe000), 0x40 + 0x20);
}
