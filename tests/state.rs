use runes::apu::{Speaker, Pulse};
use runes::cartridge::{MirrorType, SimpleCart};
use runes::controller::InputPoller;
use runes::mapper::Mapper;
use runes::memory::{load_state, save_state, CPUMemory};
use runes::mos6502::CPU;
use runes::ppu::Screen;
use runes::utils::Sampler;

struct Host {
    pixels: Vec<(u8, u8, u8)>,
    samples: Vec<i16>,
}

impl Screen for Host {
    fn put(&mut self, x: u8, y: u8, color: u8) {
        self.pixels.push((x, y, color));
    }
    fn render(&mut self) {}
    fn frame(&mut self) {}
}

impl Speaker for Host {
    fn queue(&mut self, sample: i16) {
        self.samples.push(sample);
    }
}

impl InputPoller for Host {
    fn poll(&self) -> u8 {
        0
    }
}

/// A program that turns rendering and sound on and then counts in RAM forever.
fn cart() -> SimpleCart {
    let program = [
        0xa9, 0x1e, 0x8d, 0x01, 0x20, // LDA #$1e; STA $2001 (show bg and sprites)
        0xa9, 0x0f, 0x8d, 0x15, 0x40, // LDA #$0f; STA $4015
        0xa9, 0xbf, 0x8d, 0x00, 0x40, // LDA #$bf; STA $4000
        0xa9, 0x40, 0x8d, 0x02, 0x40, // LDA #$40; STA $4002
        0xa9, 0x08, 0x8d, 0x03, 0x40, // LDA #$08; STA $4003
        0xe6, 0x10, // INC $10
        0xa5, 0x10, // LDA $10
        0x85, 0x11, // STA $11
        0x4c, 0x19, 0x80, // JMP $8019
    ];
    let mut prg = vec![0xeau8; 0x8000];
    prg[..program.len()].copy_from_slice(&program);
    prg[0x7ffc] = 0x00;
    prg[0x7ffd] = 0x80;
    let mut chr = vec![0u8; 0x2000];
    for (i, b) in chr.iter_mut().enumerate() {
        *b = (i * 7) as u8;
    }
    SimpleCart::new(chr, prg, vec![0u8; 0x2000], MirrorType::Vertical)
}

fn machine() -> (CPU, CPUMemory, Host) {
    let mapper = Mapper::new(0, cart()).unwrap();
    let mut mem = CPUMemory::new(mapper, None, None);
    let mut cpu = CPU::new();
    let mut h = Host { pixels: Vec::new(), samples: Vec::new() };
    cpu.powerup(&mut mem, &mut h);
    (cpu, mem, h)
}

fn run(cpu: &mut CPU, mem: &mut CPUMemory, h: &mut Host, ticks: usize) {
    let mut n = 0;
    while n < ticks {
        if cpu.cycle > 0 {
            mem.tick(cpu, h);
            n += 1;
        } else {
            cpu.step(mem, h).unwrap();
        }
    }
}

#[test]
fn save_then_load_replays_identically() {
    let (mut cpu, mut mem, mut h) = machine();
    run(&mut cpu, &mut mem, &mut h, 50_000);
    let mut saved = Vec::new();
    save_state(&cpu, &mem, &mut saved);

    let (mut cpu2, mut mem2, mut h2) = machine();
    assert!(load_state(&mut cpu2, &mut mem2, &saved, 0));
    let mut again = Vec::new();
    save_state(&cpu2, &mem2, &mut again);
    assert_eq!(saved, again);

    h.pixels.clear();
    h.samples.clear();
    for _ in 0..30 {
        run(&mut cpu, &mut mem, &mut h, 10_000);
        run(&mut cpu2, &mut mem2, &mut h2, 10_000);
        assert_eq!((cpu.pc, cpu.a, cpu.cycle), (cpu2.pc, cpu2.a, cpu2.cycle));
        assert_eq!((mem.ppu.scanline, mem.ppu.cycle), (mem2.ppu.scanline, mem2.ppu.cycle));
        assert_eq!(mem.sram, mem2.sram);
    }
    assert_eq!(h.pixels, h2.pixels);
    assert_eq!(h.samples, h2.samples);
    assert!(!h.samples.is_empty());
}

#[test]
fn truncated_load_changes_nothing() {
    let (mut cpu, mut mem, mut h) = machine();
    run(&mut cpu, &mut mem, &mut h, 10_000);
    let mut saved = Vec::new();
    save_state(&cpu, &mem, &mut saved);

    let (mut cpu2, mut mem2, _h2) = machine();
    let mut before = Vec::new();
    save_state(&cpu2, &mem2, &mut before);
    saved.truncate(saved.len() - 1);
    assert!(!load_state(&mut cpu2, &mut mem2, &saved, 0));
    let mut after = Vec::new();
    save_state(&cpu2, &mem2, &mut after);
    assert_eq!(before, after);
}

#[test]
fn inconsistent_state_is_refused() {
    let (cpu, mem, _h) = machine();
    let mut saved = Vec::new();
    save_state(&cpu, &mem, &mut saved);
    // the PPU's scanline (first field after CPU, RAM and bus) set beyond 261
    let at = 17 + 0x800 + 33;
    saved[at] = 0xff;
    saved[at + 1] = 0xff;
    let (mut cpu2, mut mem2, _h2) = machine();
    assert!(!load_state(&mut cpu2, &mut mem2, &saved, 0));
}

#[test]
fn sram_battery_round_trip() {
    let mut c = cart();
    c.sram[5] = 0x77;
    let mut out = Vec::new();
    c.save_sram(&mut out);
    assert_eq!(out.len(), 0x2000);
    let mut d = cart();
    assert!(d.load_sram(&out, 0));
    assert_eq!(d.sram[5], 0x77);
    assert!(!d.load_sram(&out, 1));
}

#[test]
fn component_round_trips() {
    let mut s = Sampler::new(1789773, 44100);
    for _ in 0..100 {
        s.tick();
    }
    let mut out = vec![0xaa];
    s.save(&mut out);
    let mut t = Sampler::new(1789773, 60);
    assert!(t.load(&out, 1));
    assert_eq!((t.freq2, t.cnt, t.ddl_q, t.ddl_r), (s.freq2, s.cnt, s.ddl_q, s.ddl_r));

    let mut p = Pulse::new(true);
    p.write_reg1(0x9f);
    p.write_reg3(0x42);
    let mut out = Vec::new();
    p.save(&mut out);
    let mut q = Pulse::new(false);
    assert!(q.load(&out, 0));
    assert_eq!((q.timer_period, q.seq_wave, q.comple), (0x42, p.seq_wave, true));
}
