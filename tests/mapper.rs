use runes::cartridge::{MirrorType, SimpleCart};
use runes::mapper::{Mapper, Mapper1, Mapper2, Mapper4};

fn cart(prg_banks: usize, chr_banks: usize) -> SimpleCart {
    let mut prg = vec![0u8; prg_banks * 0x4000];
    for (i, b) in prg.iter_mut().enumerate() {
        *b = (i / 0x2000) as u8;
    }
    let mut chr = vec![0u8; chr_banks * 0x2000];
    for (i, b) in chr.iter_mut().enumerate() {
        *b = (i / 0x400) as u8;
    }
    SimpleCart::new(chr, prg, vec![0u8; 0x2000], MirrorType::Horizontal)
}

#[test]
fn mmc1_five_writes_commit_control() {
    let mut m = Mapper1::new(cart(4, 2));
    for d in [0x00u8, 0x01, 0x00, 0x01, 0x00] {
        m.write(0x8000, d);
    }
    assert_eq!(m.ctl_reg, 0b01010);
    assert_eq!(m.load_reg, 0x10);
    assert!(matches!(m.cart.mirror_type, MirrorType::Vertical));
}

#[test]
fn mmc1_reset_bit_forces_prg_mode_3() {
    let mut m = Mapper1::new(cart(4, 2));
    for d in [0x00u8, 0x00, 0x00, 0x00, 0x00] {
        m.write(0x8000, d);
    }
    assert_eq!(m.ctl_reg, 0);
    m.write(0x8000, 0x01);
    m.write(0x8000, 0x80);
    assert_eq!(m.load_reg, 0x10);
    assert_eq!((m.ctl_reg >> 2) & 3, 3);
}

#[test]
fn mmc1_prg_bank_switch_in_mode_3() {
    let mut m = Mapper1::new(cart(4, 2));
    // select bank 2 for 0x8000 (mode 3 fixes the last bank at 0xc000)
    for d in [0x00u8, 0x01, 0x00, 0x00, 0x00] {
        m.write(0xe000, d);
    }
    assert_eq!(m.read(0x8000), 4);
    assert_eq!(m.read(0xc000), 6);
}

#[test]
fn uxrom_switches_low_window_only() {
    let mut m = Mapper2::new(cart(4, 1));
    assert_eq!(m.read(0x8000), 0);
    assert_eq!(m.read(0xc000), 6);
    m.write(0x8000, 5);
    assert_eq!(m.read(0x8000), 2);
    assert_eq!(m.read(0xc000), 6);
}

#[test]
fn sram_reads_back() {
    let mut m = Mapper2::new(cart(2, 1));
    m.write(0x6123, 0x5a);
    assert_eq!(m.read(0x6123), 0x5a);
}

#[test]
fn mmc3_bank_select_and_irq() {
    let mut m = Mapper4::new(cart(4, 1));
    m.write(0x8000, 6);
    m.write(0x8001, 3);
    assert_eq!(m.read(0x8000), 3);
    assert_eq!(m.read(0xe000), 7);
    m.write(0xc000, 2);
    m.write(0xe001, 0);
    assert!(!m.tick(0, 260, true));
    assert_eq!(m.irq_counter, 2);
    assert!(!m.tick(1, 260, true));
    assert!(m.tick(2, 260, true));
    assert!(!m.tick(3, 259, true));
}

#[test]
fn mapper_ids() {
    assert!(Mapper::new(3, cart(2, 1)).is_none());
    assert!(Mapper::new(0, cart(2, 1)).is_some());
    assert!(Mapper::new(4, cart(2, 1)).is_some());
}

#[test]
fn mmc1_with_one_prg_bank() {
    let mut m = Mapper1::new(cart(1, 1));
    assert_eq!(m.read(0x8000), m.read(0xc000));
    // PRG register in 32 KB mode maps the single bank twice
    for d in [0x00u8, 0x00, 0x00, 0x00, 0x00] {
        m.write(0x8000, d);
    }
    for d in [0x01u8, 0x00, 0x00, 0x00, 0x00] {
        m.write(0xe000, d);
    }
    assert_eq!(m.prg_banks, [0, 0]);
}
