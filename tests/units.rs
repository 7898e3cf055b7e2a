use runes::apu::{Pulse, APU, DUTY_TABLE, LEN_TABLE};
use runes::cartridge::{MirrorType, SimpleCart};
use runes::controller::{InputPoller, Joystick, BUTTON_A, BUTTON_START};
use runes::mapper::Mapper;
use runes::memory::{get_mirror_addr, get_mirror_palette, PPUMemory};
use runes::ppu::{reverse_byte, PPU};
use runes::utils::Sampler;

fn mapper(mt: MirrorType) -> Mapper {
    let cart = SimpleCart::new(vec![0u8; 0x2000], vec![0u8; 0x8000], vec![0u8; 0x2000], mt);
    Mapper::new(0, cart).unwrap()
}

#[test]
fn palette_fold() {
    let mut mem = PPUMemory::new();
    let mut m = mapper(MirrorType::Horizontal);
    for (i, a) in [0x3f00u16, 0x3f04, 0x3f08, 0x3f0c].iter().enumerate() {
        mem.write(&mut m, *a, 0x10 + i as u8);
    }
    for a in [0x3f10u16, 0x3f14, 0x3f18, 0x3f1c] {
        assert_eq!(mem.read(&m, a), mem.read(&m, a - 0x10));
    }
    mem.write(&mut m, 0x3f11, 0x33);
    assert_ne!(mem.read(&m, 0x3f11), mem.read(&m, 0x3f01));
    assert_eq!(get_mirror_palette(0x1c), 0x0c);
    assert_eq!(get_mirror_palette(0x1d), 0x1d);
}

#[test]
fn nametable_mirroring_modes() {
    let mut mem = PPUMemory::new();
    let mut h = mapper(MirrorType::Horizontal);
    mem.write(&mut h, 0x2005, 7);
    assert_eq!(mem.read(&h, 0x2405), 7);
    assert_eq!(mem.read(&h, 0x3005), 7);
    assert_ne!(mem.read(&h, 0x2805), 7);
    let mut mem = PPUMemory::new();
    let mut v = mapper(MirrorType::Vertical);
    mem.write(&mut v, 0x2005, 9);
    assert_eq!(mem.read(&v, 0x2805), 9);
    assert_ne!(mem.read(&v, 0x2405), 9);
    assert_eq!(get_mirror_addr(MirrorType::Single1, 0x0c01), 0x0401);
    assert_eq!(get_mirror_addr(MirrorType::Four, 0x0c01), 0x0c01);
}

#[test]
fn ppu_registers() {
    let mut p = PPU::new();
    p.write_ctl(0x83);
    assert_eq!(p.t, 0x0c00);
    assert!(p.get_flag_nmi());
    let before = (p.t, p.ppuctl, p.reg);
    p.write_ctl(0x83);
    assert_eq!((p.t, p.ppuctl, p.reg), before);
    p.write_scroll(0x7d);
    assert_eq!(p.x, 5);
    assert_eq!(p.t & 0x1f, 0x0f);
    assert!(p.w);
    p.write_scroll(0x5e);
    assert!(!p.w);
    assert_eq!(p.t, 0x6d6f);
    let s = p.read_status();
    assert_eq!(s & 0x80, 0x80);
    assert_eq!(p.ppustatus & 0x80, 0);
    p.write_addr(0x21);
    p.write_addr(0x08);
    assert_eq!(p.v, 0x2108);
    p.write_oamaddr(0xff);
    p.write_oamdata(0x42);
    assert_eq!(p.oamaddr, 0);
    assert_eq!(p.oam[255], 0x42);
}

#[test]
fn ppu_data_buffered_read() {
    let mut p = PPU::new();
    let mut m = mapper(MirrorType::Vertical);
    p.write_addr(0x20);
    p.write_addr(0x00);
    p.write_data(&mut m, 0x11);
    p.write_data(&mut m, 0x22);
    p.write_addr(0x20);
    p.write_addr(0x00);
    let _ = p.read_data(&m);
    assert_eq!(p.read_data(&m), 0x11);
    assert_eq!(p.read_data(&m), 0x22);
    p.write_addr(0x3f);
    p.write_addr(0x00);
    p.write_data(&mut m, 0x0f);
    p.write_addr(0x3f);
    p.write_addr(0x00);
    assert_eq!(p.read_data(&m), 0x0f);
}

#[test]
fn reverse_bits() {
    assert_eq!(reverse_byte(0b1000_0001), 0b1000_0001);
    assert_eq!(reverse_byte(0b1100_0000), 0b0000_0011);
    assert_eq!(reverse_byte(0x12), 0x48);
}

#[test]
fn pulse_duty_quarter() {
    let mut p = Pulse::new(false);
    p.enable();
    // duty 1 (0b00000110), constant volume 15
    p.write_reg1(0b0111_1111);
    assert_eq!(p.seq_wave, DUTY_TABLE[1]);
    p.write_reg3(0xff);
    p.write_reg4(0x08);
    assert_eq!(p.timer_period, 0x0ff);
    assert_eq!(p.len_lvl, LEN_TABLE[1]);
    let mut seq = Vec::new();
    for _ in 0..8 {
        seq.push(p.output());
        for _ in 0..=0xff {
            p.tick_timer();
        }
    }
    // the first timer clock reloads and moves to step 1
    assert_eq!(seq, vec![0, 0xf, 0xf, 0, 0, 0, 0, 0]);
}

#[test]
fn pulse_sweep_negation_differs() {
    let mut p1 = Pulse::new(false);
    let mut p2 = Pulse::new(true);
    for p in [&mut p1, &mut p2] {
        p.write_reg3(0x00);
        p.write_reg4(0x01);
        p.write_reg2(0b1000_1001);
        p.tick_sweep();
    }
    assert_eq!(p1.timer_period, 0x100 - 0x80 - 1);
    assert_eq!(p2.timer_period, 0x100 - 0x80);
}

#[test]
fn apu_silent_output() {
    let mut apu = APU::new();
    assert_eq!(apu.output(), -26728);
}

#[test]
fn apu_status_and_frame_irq() {
    let mut apu = APU::new();
    apu.write_status(0x01);
    apu.pulse1.write_reg4(0x08);
    assert_eq!(apu.read_status() & 0x01, 0x01);
    apu.write_status(0x00);
    assert_eq!(apu.read_status() & 0x01, 0x00);
    apu.write_frame_counter(0x00);
    for _ in 0..4 {
        apu.tick_frame_counter();
    }
    assert_eq!(apu.read_status() & 0x40, 0x40);
    apu.write_frame_counter(0x40);
    apu.frame_int = false;
    for _ in 0..4 {
        apu.tick_frame_counter();
    }
    assert_eq!(apu.read_status() & 0x40, 0);
}

#[test]
fn sampler_rate() {
    let mut s = Sampler::new(1789773, 60);
    let mut fired = 0;
    for _ in 0..1789773 {
        if s.tick() {
            fired += 1;
        }
    }
    assert!(fired == 60 || fired == 61);
}

struct Pad(u8);

impl InputPoller for Pad {
    fn poll(&self) -> u8 {
        self.0
    }
}

#[test]
fn joystick_shift_register() {
    let pad = Pad(BUTTON_A | BUTTON_START);
    let mut j = Joystick::new();
    j.write(&pad, 1);
    assert_eq!(j.read(&pad), 1);
    j.write(&pad, 0);
    let bits: Vec<u8> = (0..8).map(|_| j.read(&pad)).collect();
    assert_eq!(bits, vec![1, 0, 0, 1, 0, 0, 0, 0]);
}
