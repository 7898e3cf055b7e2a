use runes::apu::Speaker;
use runes::cartridge::{MirrorType, SimpleCart};
use runes::controller::InputPoller;
use runes::mapper::Mapper;
use runes::memory::CPUMemory;
use runes::mos6502::{indirect_hi_addr, CPU, IntType, ZERO_FLAG};
use runes::ppu::Screen;

struct Host {
    pixels: usize,
    frames: usize,
    samples: Vec<i16>,
    buttons: u8,
}

impl Screen for Host {
    fn put(&mut self, _x: u8, _y: u8, _color: u8) {
        self.pixels += 1;
    }
    fn render(&mut self) {}
    fn frame(&mut self) {
        self.frames += 1;
    }
}

impl Speaker for Host {
    fn queue(&mut self, sample: i16) {
        self.samples.push(sample);
    }
}

impl InputPoller for Host {
    fn poll(&self) -> u8 {
        self.buttons
    }
}

fn host() -> Host {
    Host { pixels: 0, frames: 0, samples: Vec::new(), buttons: 0 }
}

/// A 32 KB NROM cartridge with `program` at 0x8000, reset at 0x8000 and NMI at 0x9000.
fn machine(program: &[u8]) -> (CPU, CPUMemory, Host) {
    let mut prg = vec![0xeau8; 0x8000];
    prg[..program.len()].copy_from_slice(program);
    // NMI handler: an endless loop at 0x9000
    prg[0x1000] = 0x4c;
    prg[0x1001] = 0x00;
    prg[0x1002] = 0x90;
    prg[0x7ffa] = 0x00;
    prg[0x7ffb] = 0x90;
    prg[0x7ffc] = 0x00;
    prg[0x7ffd] = 0x80;
    let cart = SimpleCart::new(vec![0u8; 0x2000], prg, vec![0u8; 0x2000], MirrorType::Horizontal);
    let mapper = Mapper::new(0, cart).unwrap();
    let mut mem = CPUMemory::new(mapper, None, None);
    let mut cpu = CPU::new();
    let mut h = host();
    cpu.powerup(&mut mem, &mut h);
    (cpu, mem, h)
}

fn finish(cpu: &mut CPU, mem: &mut CPUMemory, h: &mut Host) {
    while cpu.cycle > 0 {
        mem.tick(cpu, h);
    }
}

#[test]
fn powerup_state() {
    let (cpu, _mem, _h) = machine(&[]);
    assert_eq!(cpu.pc, 0x8000);
    assert_eq!(cpu.sp, 0xfd);
    assert_eq!(cpu.status, 0x34);
    assert_eq!(cpu.cycle, 2);
}

#[test]
fn branch_cycles() {
    // BEQ +2 at 0x8000 (same page) and at 0x80fd (target 0x8101, next page)
    let mut program = vec![0xeau8; 0x100];
    program[0] = 0xf0;
    program[1] = 0x02;
    program[0xfd] = 0xf0;
    program[0xfe] = 0x02;
    let (mut cpu, mut mem, mut h) = machine(&program);
    finish(&mut cpu, &mut mem, &mut h);

    cpu.status &= !ZERO_FLAG;
    cpu.pc = 0x8000;
    cpu.step(&mut mem, &mut h).unwrap();
    assert_eq!(cpu.cycle, 0);
    assert_eq!(cpu.pc, 0x8002);

    cpu.status |= ZERO_FLAG;
    cpu.pc = 0x8000;
    cpu.step(&mut mem, &mut h).unwrap();
    assert_eq!(cpu.cycle, 1);
    assert_eq!(cpu.pc, 0x8004);
    finish(&mut cpu, &mut mem, &mut h);

    cpu.pc = 0x80fd;
    cpu.step(&mut mem, &mut h).unwrap();
    assert_eq!(cpu.cycle, 2);
    assert_eq!(cpu.pc, 0x8101);
}

#[test]
fn indirect_jump_page_wrap() {
    assert_eq!(indirect_hi_addr(0x30ff), 0x3000);
    assert_eq!(indirect_hi_addr(0x3010), 0x3011);
    // JMP ($02ff): low byte from 0x02ff, high byte from 0x0200, not 0x0300
    let (mut cpu, mut mem, mut h) = machine(&[0x6c, 0xff, 0x02]);
    mem.sram[0x02ff] = 0x34;
    mem.sram[0x0200] = 0x12;
    mem.sram[0x0300] = 0x56;
    finish(&mut cpu, &mut mem, &mut h);
    cpu.step(&mut mem, &mut h).unwrap();
    assert_eq!(cpu.pc, 0x1234);
}

#[test]
fn oam_dma_even_and_odd() {
    let (mut cpu, mut mem, mut h) = machine(&[]);
    for i in 0..256 {
        mem.sram[0x200 + i] = (255 - i) as u8;
    }
    cpu.cycle = 0;
    mem.write_without_tick(&mut cpu, &mut h, 0x4014, 0x02);
    assert_eq!(mem.bus.cpu_stall, 513);
    for i in 0..256 {
        assert_eq!(mem.ppu.oam[i], (255 - i) as u8);
    }
    mem.bus.cpu_stall = 0;
    cpu.cycle = 1;
    mem.write_without_tick(&mut cpu, &mut h, 0x4014, 0x02);
    assert_eq!(mem.bus.cpu_stall, 514);
}

#[test]
fn invalid_opcode_is_refused() {
    let (mut cpu, mut mem, mut h) = machine(&[0x02]);
    finish(&mut cpu, &mut mem, &mut h);
    assert_eq!(cpu.step(&mut mem, &mut h), Err(0x02));
}

#[test]
fn adc_sbc_vectors() {
    let mut cpu = CPU::new();
    cpu.status = 0;
    cpu.a = 0x50;
    cpu.op_adc(0x50);
    assert_eq!(cpu.a, 0xa0);
    assert_eq!(cpu.status, 0xc0);
    cpu.status = 0x01;
    cpu.a = 0x50;
    cpu.op_sbc(0xf0);
    assert_eq!(cpu.a, 0x60);
    assert_eq!(cpu.status, 0x00);
    cpu.status = 0x01;
    cpu.a = 0xff;
    cpu.op_adc(0x00);
    assert_eq!(cpu.a, 0x00);
    assert_eq!(cpu.status, 0x03);
    cpu.op_cmp(0x01);
    assert_eq!(cpu.status & 0x83, 0x80);
}

#[test]
fn jsr_rts_round_trip() {
    // JSR 0x8010; at 0x8010: RTS
    let mut program = vec![0xeau8; 0x20];
    program[0] = 0x20;
    program[1] = 0x10;
    program[2] = 0x80;
    program[0x10] = 0x60;
    let (mut cpu, mut mem, mut h) = machine(&program);
    finish(&mut cpu, &mut mem, &mut h);
    cpu.step(&mut mem, &mut h).unwrap();
    assert_eq!(cpu.pc, 0x8010);
    assert_eq!(cpu.sp, 0xfb);
    assert_eq!(mem.sram[0x1fd], 0x80);
    assert_eq!(mem.sram[0x1fc], 0x02);
    finish(&mut cpu, &mut mem, &mut h);
    cpu.step(&mut mem, &mut h).unwrap();
    assert_eq!(cpu.pc, 0x8003);
    assert_eq!(cpu.sp, 0xfd);
}

#[test]
fn brk_pushes_pc_plus_two() {
    let (mut cpu, mut mem, mut h) = machine(&[0x00]);
    finish(&mut cpu, &mut mem, &mut h);
    let sp = cpu.sp as usize;
    cpu.step(&mut mem, &mut h).unwrap();
    assert_eq!(mem.sram[0x100 + sp], 0x80);
    assert_eq!(mem.sram[0x100 + sp - 1], 0x02);
    assert_eq!(mem.sram[0x100 + sp - 2] & 0x10, 0x10);
    assert_eq!(cpu.status & 0x04, 0x04);
}

#[test]
fn nmi_at_vblank_entry() {
    // BIT $2002 (clear vblank); LDA #$80; STA $2000; loop: JMP loop
    let program = [0x2c, 0x02, 0x20, 0xa9, 0x80, 0x8d, 0x00, 0x20, 0x4c, 0x08, 0x80];
    let (mut cpu, mut mem, mut h) = machine(&program);
    let pending = |c: &CPU| c.int == Some(IntType::NMI) || c.int == Some(IntType::DelayedNMI);
    let mut steps = 0;
    let mut seen = None;
    while seen.is_none() && steps < 100_000 {
        while cpu.cycle > 0 && seen.is_none() {
            mem.tick(&mut cpu, &mut h);
            if pending(&cpu) {
                seen = Some((mem.ppu.scanline, mem.ppu.cycle));
            }
        }
        if seen.is_none() {
            cpu.step(&mut mem, &mut h).unwrap();
            if pending(&cpu) {
                seen = Some((mem.ppu.scanline, mem.ppu.cycle));
            }
        }
        steps += 1;
    }
    let (line, dot) = seen.unwrap();
    // the request comes within the few dots after dot 1 of scanline 241 (vblank entry);
    // it is seen at the end of the bus tick or instruction that covered that dot
    assert_eq!(line, 241);
    assert!(dot >= 2 && dot <= 2 + 3 * 4);
    assert_ne!(mem.ppu.ppustatus & 0x80, 0);
    // the interrupt itself costs 7 cycles and lands in the handler
    finish(&mut cpu, &mut mem, &mut h);
    if cpu.int == Some(IntType::DelayedNMI) {
        cpu.step(&mut mem, &mut h).unwrap();
        finish(&mut cpu, &mut mem, &mut h);
    }
    assert_eq!(cpu.int, Some(IntType::NMI));
    let mut ticks = 0;
    cpu.step(&mut mem, &mut h).unwrap();
    ticks += 5;
    while cpu.cycle > 0 {
        mem.tick(&mut cpu, &mut h);
        ticks += 1;
    }
    assert_eq!(ticks, 7);
    assert_eq!(cpu.pc, 0x9000);
}


fn dot(mem: &CPUMemory) -> i64 {
    mem.ppu.scanline as i64 * 341 + mem.ppu.cycle as i64
}

/// Runs one instruction to completion; returns the CPU cycles it took.
fn instruction(cpu: &mut CPU, mem: &mut CPUMemory, h: &mut Host) -> i64 {
    let before = dot(mem);
    cpu.step(mem, h).unwrap();
    finish(cpu, mem, h);
    let frame = 262 * 341;
    ((dot(mem) - before + frame) % frame) / 3
}

#[test]
fn opcode_vectors() {
    let program = [
        0xa9, 0x80, // LDA #$80
        0xaa, // TAX
        0xe8, // INX
        0x0a, // ASL A
        0x2a, // ROL A
        0x6a, // ROR A
        0x85, 0x10, // STA $10
        0xe6, 0x10, // INC $10
        0xa6, 0x10, // LDX $10
        0x48, // PHA
        0xa9, 0x05, // LDA #5
        0x68, // PLA
        0x38, // SEC
        0xe9, 0x01, // SBC #1
        0xc9, 0xff, // CMP #$ff
        0xbd, 0xf0, 0x00, // LDA $00f0,X (no page cross)
        0xbd, 0xff, 0x00, // LDA $00ff,X (page cross)
    ];
    let (mut cpu, mut mem, mut h) = machine(&program);
    finish(&mut cpu, &mut mem, &mut h);
    cpu.status = 0x24;
    // (a, x, carry, zero, negative, cycles)
    let expected: [(u8, u8, u8, u8, u8, i64); 17] = [
        (0x80, 0x00, 0, 0, 1, 2),
        (0x80, 0x80, 0, 0, 1, 2),
        (0x80, 0x81, 0, 0, 1, 2),
        (0x00, 0x81, 1, 1, 0, 2),
        (0x01, 0x81, 0, 0, 0, 2),
        (0x00, 0x81, 1, 1, 0, 2),
        (0x00, 0x81, 1, 1, 0, 3),
        (0x00, 0x81, 1, 0, 0, 5),
        (0x00, 0x01, 1, 0, 0, 3),
        (0x00, 0x01, 1, 0, 0, 3),
        (0x05, 0x01, 1, 0, 0, 2),
        (0x00, 0x01, 1, 1, 0, 4),
        (0x00, 0x01, 1, 1, 0, 2),
        (0xff, 0x01, 0, 0, 1, 2),
        (0xff, 0x01, 1, 1, 0, 2),
        (0x00, 0x01, 1, 1, 0, 4),
        (0x00, 0x01, 1, 1, 0, 5),
    ];
    for (i, e) in expected.iter().enumerate() {
        let cycles = instruction(&mut cpu, &mut mem, &mut h);
        let got = (cpu.a, cpu.x, cpu.status & 1, (cpu.status >> 1) & 1, cpu.status >> 7, cycles);
        assert_eq!(got, *e, "instruction {}", i);
    }
    assert_eq!(mem.sram[0x10], 1);
    assert_eq!(cpu.sp, 0xfd);
}

#[test]
fn irq_replaces_delayed_nmi_but_not_nmi() {
    let mut cpu = CPU::new();
    cpu.status = 0;
    cpu.trigger_delayed_nmi();
    cpu.trigger_irq();
    assert_eq!(cpu.int, Some(IntType::IRQ));
    cpu.trigger_nmi();
    cpu.trigger_irq();
    assert_eq!(cpu.int, Some(IntType::NMI));
    cpu.int = None;
    cpu.status = 0x04;
    cpu.trigger_irq();
    assert_eq!(cpu.int, None);
}

#[test]
fn credited_costs() {
    // BEQ +$10 at 0x8000; BEQ +$20 at 0x80f0 (target on the next page); LDA $80ff,X
    let mut program = vec![0xeau8; 0x100];
    program[0] = 0xf0;
    program[1] = 0x10;
    program[0xf0] = 0xf0;
    program[0xf1] = 0x20;
    program[0x20] = 0xbd;
    program[0x21] = 0xff;
    program[0x22] = 0x80;
    let (mut cpu, mut mem, mut h) = machine(&program);
    finish(&mut cpu, &mut mem, &mut h);
    cpu.status |= ZERO_FLAG;
    cpu.pc = 0x8000;
    cpu.step(&mut mem, &mut h).unwrap();
    assert_eq!((cpu.pc, cpu.cost), (0x8012, 3));
    finish(&mut cpu, &mut mem, &mut h);
    cpu.pc = 0x80f0;
    cpu.step(&mut mem, &mut h).unwrap();
    assert_eq!((cpu.pc, cpu.cost), (0x8112, 4));
    finish(&mut cpu, &mut mem, &mut h);
    cpu.status &= !ZERO_FLAG;
    cpu.pc = 0x80f0;
    cpu.step(&mut mem, &mut h).unwrap();
    assert_eq!((cpu.pc, cpu.cost), (0x80f2, 2));
    finish(&mut cpu, &mut mem, &mut h);
    cpu.x = 1;
    cpu.pc = 0x8020;
    cpu.step(&mut mem, &mut h).unwrap();
    assert_eq!(cpu.cost, 5);
    finish(&mut cpu, &mut mem, &mut h);
    cpu.status = 0;
    cpu.trigger_irq();
    cpu.step(&mut mem, &mut h).unwrap();
    assert_eq!(cpu.cost, 7);
}
