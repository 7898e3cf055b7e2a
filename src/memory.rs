use vstd::prelude::*;
use crate::cartridge::{MirrorType, SRAM_SIZE};
use crate::mapper::{Mapper, mapped};
use crate::mos6502::{CPU, IntType, CYCLE_LIMIT, CPU_STATE_LEN, lemma_cpu_round_trip};
use crate::ppu::{PPU_STATE_LEN, lemma_ppu_round_trip};
use crate::apu::{APU_STATE_LEN, lemma_apu_round_trip};
use crate::ppu::{PPU, Screen};
use crate::apu::{APU, Speaker, CPU_FREQ, pulse_switched, triangle_switched, noise_switched, dmc_switched};
use crate::controller::{Joystick, InputPoller};
use crate::utils::{
    Sampler, put_bool, put_u32, put_bytes, get_bool, get_u32, get_bytes, enc_bool, enc_u32, dec_bool,
    dec_u32, lemma_dec_bool, lemma_dec_u32, lemma_sampler_unique, lemma_sampler_decodes_own,
};

verus! {

/// The physical 1 KB nametable that logical nametable `table` (0..3) uses under `mt`.
pub open spec fn mirror_bank(mt: MirrorType, table: int) -> int {
    match mt {
        MirrorType::Horizontal => if table < 2 { 0 } else { 1 },
        MirrorType::Vertical => table % 2,
        MirrorType::Single0 => 0,
        MirrorType::Single1 => 1,
        MirrorType::Four => table,
    }
}

/// Index into the 2 KB nametable RAM for nametable offset `a` (0..0xfff).
pub open spec fn nt_index(mt: MirrorType, a: int) -> int {
    (mirror_bank(mt, a / 0x400) * 0x400 + a % 0x400) % 0x800
}

/// Palette entries 0x10, 0x14, 0x18 and 0x1c are the entries 0x10 below them.
pub open spec fn palette_index(a: int) -> int {
    if a >= 0x10 && a % 4 == 0 {
        a - 0x10
    } else {
        a
    }
}

pub fn get_mirror_addr(kind: MirrorType, addr: u16) -> (r: u16)
    requires
        addr < 0x1000,
    ensures
        r == mirror_bank(kind, (addr / 0x400) as int) * 0x400 + addr % 0x400,
{
    let table = addr / 0x400;
    let offset = addr % 0x400;
    let bank: u16 = match kind {
        MirrorType::Horizontal => if table < 2 { 0 } else { 1 },
        MirrorType::Vertical => table % 2,
        MirrorType::Single0 => 0,
        MirrorType::Single1 => 1,
        MirrorType::Four => table,
    };
    bank * 0x400 + offset
}

pub fn get_mirror_palette(addr: u16) -> (r: u16)
    requires
        addr < 0x20,
    ensures
        r == palette_index(addr as int),
        r < 0x20,
{
    if addr >= 0x10 && addr % 4 == 0 {
        addr - 0x10
    } else {
        addr
    }
}

/// The PPU's own memory: 2 KB of nametable RAM and 32 bytes of palette RAM.
pub struct PPUMemory {
    pub nametable: Vec<u8>,
    pub palette: Vec<u8>,
}

impl PPUMemory {
    pub open spec fn wf(&self) -> bool {
        self.nametable@.len() == 0x800 && self.palette@.len() == 0x20
    }

    /// The byte the PPU bus holds at `addr`, with the cartridge behind the pattern tables.
    pub open spec fn spec_read(&self, mapper: Mapper, addr: u16) -> u8 {
        let a = addr % 0x4000;
        if a < 0x2000 {
            mapper.spec_read(a)
        } else if a >= 0x3f00 {
            self.palette@[palette_index((a - 0x3f00) % 0x20)]
        } else {
            self.nametable@[nt_index(mapper.mirror(), (a - 0x2000) % 0x1000)]
        }
    }

    pub fn new() -> (r: Self)
        ensures
            r.wf(),
            forall|i: int| 0 <= i < 0x800 ==> r.nametable@[i] == 0,
            forall|i: int| 0 <= i < 0x20 ==> r.palette@[i] == 0,
    {
        PPUMemory { nametable: vec![0u8; 0x800], palette: vec![0u8; 0x20] }
    }

    pub fn read_nametable(&self, mt: MirrorType, addr: u16) -> (r: u8)
        requires
            self.wf(),
            addr < 0x1000,
        ensures
            r == self.nametable@[nt_index(mt, addr as int)],
    {
        let i = get_mirror_addr(mt, addr) as usize % 0x800;
        self.nametable[i]
    }

    pub fn read_palette(&self, addr: u16) -> (r: u8)
        requires
            self.wf(),
            addr < 0x20,
        ensures
            r == self.palette@[palette_index(addr as int)],
    {
        self.palette[get_mirror_palette(addr) as usize]
    }

    pub fn write_nametable(&mut self, mt: MirrorType, addr: u16, data: u8)
        requires
            old(self).wf(),
            addr < 0x1000,
        ensures
            final(self).wf(),
            final(self).nametable@ == old(self).nametable@.update(nt_index(mt, addr as int), data),
            final(self).palette@ == old(self).palette@,
    {
        let i = get_mirror_addr(mt, addr) as usize % 0x800;
        self.nametable.set(i, data);
    }

    pub fn write_palette(&mut self, addr: u16, data: u8)
        requires
            old(self).wf(),
            addr < 0x20,
        ensures
            final(self).wf(),
            final(self).palette@ == old(self).palette@.update(palette_index(addr as int), data),
            final(self).nametable@ == old(self).nametable@,
    {
        let i = get_mirror_palette(addr) as usize;
        self.palette.set(i, data);
    }

    pub fn read_mapper(&self, mapper: &Mapper, addr: u16) -> (r: u8)
        requires
            mapper.wf(),
            addr < 0x2000,
        ensures
            r == mapper.spec_read(addr),
    {
        mapper.read(addr)
    }

    /// A read on the PPU bus.
    pub fn read(&self, mapper: &Mapper, addr: u16) -> (r: u8)
        requires
            self.wf(),
            mapper.wf(),
        ensures
            r == self.spec_read(*mapper, addr),
    {
        let a = addr % 0x4000;
        if a < 0x2000 {
            self.read_mapper(mapper, a)
        } else if a >= 0x3f00 {
            self.read_palette((a - 0x3f00) % 0x20)
        } else {
            let mt = mapper.get_mirror_type();
            self.read_nametable(mt, (a - 0x2000) % 0x1000)
        }
    }

    /// A write on the PPU bus.
    pub fn write(&mut self, mapper: &mut Mapper, addr: u16, data: u8)
        requires
            old(self).wf(),
            old(mapper).wf(),
        ensures
            final(self).wf(),
            final(mapper).wf(),
            final(mapper).mirror() == old(mapper).mirror(),
            ({
                let a = addr % 0x4000;
                &&& a < 0x2000 ==> Mapper::write_post(*old(mapper), *final(mapper), a as u16, data)
                    && final(self).nametable@ == old(self).nametable@ && final(self).palette@
                    == old(self).palette@
                &&& a >= 0x2000 ==> *final(mapper) == *old(mapper)
                &&& a >= 0x3f00 ==> final(self).palette@ == old(self).palette@.update(
                    palette_index((a - 0x3f00) % 0x20), data) && final(self).nametable@
                    == old(self).nametable@
                &&& 0x2000 <= a < 0x3f00 ==> final(self).nametable@ == old(self).nametable@.update(
                    nt_index(old(mapper).mirror(), (a - 0x2000) % 0x1000), data)
                    && final(self).palette@ == old(self).palette@
            }),
    {
        let a = addr % 0x4000;
        if a < 0x2000 {
            mapper.write(a, data);
        } else if a >= 0x3f00 {
            self.write_palette((a - 0x3f00) % 0x20, data);
        } else {
            let mt = mapper.get_mirror_type();
            self.write_nametable(mt, (a - 0x2000) % 0x1000, data);
        }
    }
}

/// Palette fold: reading 0x3f10, 0x3f14, 0x3f18 or 0x3f1c (or any of their mirrors up to
/// 0x3fff) returns the same byte as the entry 0x10 below it.
pub proof fn lemma_palette_fold(mem: PPUMemory, mapper: Mapper, addr: u16)
    requires
        0x3f00 <= addr < 0x4000,
        addr % 0x20 == 0x10 || addr % 0x20 == 0x14 || addr % 0x20 == 0x18 || addr % 0x20 == 0x1c,
    ensures
        mem.spec_read(mapper, addr) == mem.spec_read(mapper, (addr - 0x10) as u16),
{
}

/// Mirroring: two nametable addresses that fall in the same physical bank at the same offset
/// read the same byte.
pub proof fn lemma_nametable_alias(mem: PPUMemory, mapper: Mapper, a: u16, b: u16)
    requires
        0x2000 <= a < 0x3f00,
        0x2000 <= b < 0x3f00,
        mirror_bank(mapper.mirror(), ((a - 0x2000) % 0x1000) / 0x400) == mirror_bank(
            mapper.mirror(), ((b - 0x2000) % 0x1000) / 0x400),
        a % 0x400 == b % 0x400,
    ensures
        mem.spec_read(mapper, a) == mem.spec_read(mapper, b),
{
}

/// Mirroring, mode by mode: horizontal pairs nametables 0/1 and 2/3, vertical pairs 0/2 and
/// 1/3, single-screen folds all four onto one.
pub proof fn lemma_nametable_modes(mem: PPUMemory, mapper: Mapper, a: u16)
    requires
        0x2000 <= a < 0x2400,
    ensures
        mapper.mirror() == MirrorType::Horizontal ==> mem.spec_read(mapper, a) == mem.spec_read(
            mapper, (a + 0x400) as u16) && mem.spec_read(mapper, (a + 0x800) as u16)
            == mem.spec_read(mapper, (a + 0xc00) as u16),
        mapper.mirror() == MirrorType::Vertical ==> mem.spec_read(mapper, a) == mem.spec_read(
            mapper, (a + 0x800) as u16) && mem.spec_read(mapper, (a + 0x400) as u16)
            == mem.spec_read(mapper, (a + 0xc00) as u16),
        mapper.mirror() == MirrorType::Single0 || mapper.mirror() == MirrorType::Single1 ==> {
            &&& mem.spec_read(mapper, a) == mem.spec_read(mapper, (a + 0x400) as u16)
            &&& mem.spec_read(mapper, a) == mem.spec_read(mapper, (a + 0x800) as u16)
            &&& mem.spec_read(mapper, a) == mem.spec_read(mapper, (a + 0xc00) as u16)
        },
{
}

/// Mirroring: 0x3000..0x3eff repeats 0x2000..0x2eff.
pub proof fn lemma_nametable_upper_mirror(mem: PPUMemory, mapper: Mapper, a: u16)
    requires
        0x2000 <= a < 0x2f00,
    ensures
        mem.spec_read(mapper, a) == mem.spec_read(mapper, (a + 0x1000) as u16),
{
}

/// A CPUCTRL write's effect on the pending interrupt: clearing NMI-enable right after an NMI
/// was raised drops it; setting it while the vblank flag is up raises a delayed one.
pub open spec fn ctl_write_int(slot: Option<IntType>, old_nmi: bool, new: PPU, nmi_after_tick: bool) -> Option<IntType> {
    let due = new.vblank_flag() && new.nmi_enabled();
    let i1 = if !due && nmi_after_tick {
        if slot == Some(IntType::IRQ) { slot } else { None }
    } else {
        slot
    };
    if !old_nmi && due && new.vblank_lines {
        Some(IntType::DelayedNMI)
    } else {
        i1
    }
}

/// What a write of `data` to PPU register `reg` (0..7) does.
pub open spec fn ppu_reg_effect(pre: CPUMemory, post: CPUMemory, cpre: CPU, cpost: CPU, reg: u16, data: u8) -> bool {
    &&& reg != 7 ==> post == (CPUMemory { ppu: post.ppu, ..pre })
    &&& reg == 7 ==> post == (CPUMemory { ppu: post.ppu, mapper: post.mapper, ..pre })
    &&& reg == 0 ==> post.ppu == pre.ppu.ctl_written(data) && cpost == (CPU {
        int: ctl_write_int(cpre.int, pre.ppu.nmi_enabled(), pre.ppu.ctl_written(data), pre.bus.nmi_after_tick),
        ..cpre
    })
    &&& reg == 1 ==> post.ppu == pre.ppu.mask_written(data)
    &&& reg == 2 ==> post.ppu == pre.ppu
    &&& reg == 3 ==> post.ppu == pre.ppu.oamaddr_written(data)
    &&& reg == 4 ==> post.ppu == (PPU { reg: data, oam: post.ppu.oam, oamaddr: pre.ppu.oamaddr.wrapping_add(1), ..pre.ppu })
        && post.ppu.oam@ == pre.ppu.oam@.update(pre.ppu.oamaddr as int, data)
    &&& reg == 5 ==> post.ppu == pre.ppu.scroll_written(data)
    &&& reg == 6 ==> post.ppu == pre.ppu.addr_written(data)
    &&& reg == 7 ==> post.ppu == (PPU {
        reg: data,
        v: pre.ppu.v.wrapping_add(crate::ppu::vram_step(pre.ppu.ppuctl)),
        mem: post.ppu.mem,
        ..pre.ppu
    })
    &&& reg != 0 ==> cpost == cpre
}

/// What a write of `data` to APU register `addr` does to the APU.
pub open spec fn apu_reg_effect(pre: APU, post: APU, addr: u16, data: u8) -> bool {
    &&& addr == 0x4000 ==> post.pulse1 == pre.pulse1.reg1_written(data)
    &&& addr == 0x4001 ==> post.pulse1 == pre.pulse1.reg2_written(data)
    &&& addr == 0x4002 ==> post.pulse1 == pre.pulse1.reg3_written(data)
    &&& addr == 0x4003 ==> post.pulse1 == pre.pulse1.reg4_written(data)
    &&& addr == 0x4004 ==> post.pulse2 == pre.pulse2.reg1_written(data)
    &&& addr == 0x4005 ==> post.pulse2 == pre.pulse2.reg2_written(data)
    &&& addr == 0x4006 ==> post.pulse2 == pre.pulse2.reg3_written(data)
    &&& addr == 0x4007 ==> post.pulse2 == pre.pulse2.reg4_written(data)
    &&& addr == 0x4008 ==> post.triangle == pre.triangle.reg1_written(data)
    &&& addr == 0x400a ==> post.triangle == pre.triangle.reg3_written(data)
    &&& addr == 0x400c ==> post.noise == pre.noise.reg1_written(data)
    &&& addr == 0x400e ==> post.noise == pre.noise.reg3_written(data)
    &&& addr == 0x4010 ==> post.dmc == pre.dmc.reg1_written(data)
    &&& addr == 0x4011 ==> post.dmc == pre.dmc.reg2_written(data)
    &&& addr == 0x4012 ==> post.dmc == pre.dmc.reg3_written(data)
    &&& addr == 0x4013 ==> post.dmc == pre.dmc.reg4_written(data)
    &&& addr == 0x4015 ==> post.pulse1 == pulse_switched(pre.pulse1, data & 0x1 != 0)
        && post.pulse2 == pulse_switched(pre.pulse2, data & 0x2 != 0)
        && post.triangle == triangle_switched(pre.triangle, data & 0x4 != 0)
        && post.noise == noise_switched(pre.noise, data & 0x8 != 0)
        && post.dmc == dmc_switched(pre.dmc, data & 0x10 != 0)
    &&& addr == 0x4017 ==> post.frame_inh == (data & 0x40 == 0x40) && post.frame_mode == (data >> 7 == 1)
}

/// The position and odd-frame flag after one PPU dot.
pub open spec fn dot_after(scanline: u16, cycle: u16, rendering: bool, odd: bool) -> (u16, u16, bool) {
    let (s, c) = crate::ppu::next_pos(scanline, cycle, rendering, odd);
    (s, c, if scanline == 261 && cycle == 340 { !odd } else { odd })
}

/// The clock fan-out's own state: the NMI timing latch, the CPU stall counter and the 60 Hz
/// frame sampler.
pub struct CPUBus {
    pub nmi_after_tick: bool,
    pub cpu_stall: u32,
    pub ppu_sampler: Sampler,
}

impl CPUBus {
    pub open spec fn wf(&self) -> bool {
        self.ppu_sampler.wf()
    }

    pub fn new() -> (r: Self)
        ensures
            r.wf(),
            !r.nmi_after_tick && r.cpu_stall == 0,
    {
        CPUBus { nmi_after_tick: false, cpu_stall: 0, ppu_sampler: Sampler::new(CPU_FREQ, 60) }
    }

    /// Stalls the CPU for `delta` more cycles (saturating).
    pub fn cpu_stall(&mut self, delta: u32)
        ensures
            *final(self) == (CPUBus {
                cpu_stall: if old(self).cpu_stall as int + delta as int > u32::MAX as int {
                    u32::MAX
                } else {
                    (old(self).cpu_stall + delta) as u32
                },
                ..*old(self)
            }),
    {
        if self.cpu_stall > u32::MAX - delta {
            self.cpu_stall = u32::MAX;
        } else {
            self.cpu_stall = self.cpu_stall + delta;
        }
    }
}

/// The CPU's view of the machine: 2 KB of work RAM and everything the address space routes
/// to (PPU and APU registers, controllers, the cartridge).
pub struct CPUMemory {
    pub sram: Vec<u8>,
    pub bus: CPUBus,
    pub ppu: PPU,
    pub apu: APU,
    pub mapper: Mapper,
    pub ctl1: Option<Joystick>,
    pub ctl2: Option<Joystick>,
}

impl CPUMemory {
    pub open spec fn wf(&self) -> bool {
        &&& self.sram@.len() == 0x800
        &&& self.bus.wf()
        &&& self.ppu.wf()
        &&& self.apu.wf()
        &&& self.mapper.wf()
    }

    /// What a read leaves as it found: work RAM and the cartridge's contents.
    pub open spec fn keeps_memory(&self, o: CPUMemory) -> bool {
        &&& self.sram@ == o.sram@
        &&& forall|a: u16| #[trigger] self.mapper.spec_read(a) == o.mapper.spec_read(a)
        &&& self.mapper.mirror() == o.mapper.mirror()
    }

    pub fn new(mapper: Mapper, ctl1: Option<Joystick>, ctl2: Option<Joystick>) -> (r: Self)
        requires
            mapper.wf(),
        ensures
            r.wf(),
            r.mapper == mapper,
            forall|i: int| 0 <= i < 0x800 ==> r.sram@[i] == 0,
    {
        CPUMemory {
            sram: vec![0u8; 0x800],
            bus: CPUBus::new(),
            ppu: PPU::new(),
            apu: APU::new(),
            mapper,
            ctl1,
            ctl2,
        }
    }

    pub fn get_bus(&self) -> (r: &CPUBus)
        ensures
            *r == self.bus,
    {
        &self.bus
    }

    /// A read on the CPU bus without advancing the clock.
    pub fn read_without_tick<H: Screen + Speaker + InputPoller>(
        &mut self,
        cpu: &mut CPU,
        host: &mut H,
        addr: u16,
    ) -> (r: u8)
        requires
            old(self).wf(),
        ensures
            final(self).wf(),
            final(self).keeps_memory(*old(self)),
            final(cpu).same_regs(*old(cpu)),
            final(cpu).cycle == old(cpu).cycle,
            addr < 0x2000 ==> r == old(self).sram@[(addr % 0x800) as int],
            addr >= 0x6000 ==> r == old(self).mapper.spec_read(addr),
            0x4018 <= addr < 0x6000 ==> r == 0,
            addr < 0x2000 || addr >= 0x4018 ==> *final(self) == *old(self) && *final(cpu) == *old(
                cpu),
            final(self).ppu.oamaddr == old(self).ppu.oamaddr,
            final(self).ppu.oam == old(self).ppu.oam,
            final(self).ppu.reg == old(self).ppu.reg,
            final(self).mapper == old(self).mapper,
            final(self).bus == old(self).bus,
    {
        if addr < 0x2000 {
            self.sram[(addr % 0x800) as usize]
        } else if addr < 0x4000 {
            let reg = addr % 8;
            if reg == 2 {
                if self.ppu.cycle == 2 || self.ppu.cycle == 3 {
                    cpu.suppress_nmi();
                }
                self.ppu.read_status()
            } else if reg == 4 {
                self.ppu.read_oamdata()
            } else if reg == 7 {
                self.ppu.read_data(&self.mapper)
            } else {
                0
            }
        } else if addr < 0x5000 {
            if addr == 0x4015 {
                self.apu.read_status()
            } else if addr == 0x4016 {
                match &mut self.ctl1 {
                    Some(c) => c.read(host),
                    None => 0,
                }
            } else if addr == 0x4017 {
                match &mut self.ctl2 {
                    Some(c) => c.read(host),
                    None => 0,
                }
            } else {
                0
            }
        } else if addr < 0x6000 {
            0
        } else {
            self.mapper.read(addr)
        }
    }

    /// One CPU cycle of machine time: the CPU's credit (or a stall cycle), the APU, three PPU
    /// dots with the mapper's per-dot hook, and the 60 Hz frame signal.
    /// Returns whether one of the three PPU dots requested an NMI.
    pub fn tick<H: Screen + Speaker + InputPoller>(&mut self, cpu: &mut CPU, host: &mut H) -> (nmi: bool)
        requires
            old(self).wf(),
        ensures
            final(self).wf(),
            final(self).keeps_memory(*old(self)),
            final(cpu).same_regs(*old(cpu)),
            ({
                let (apu, r) = old(self).apu.ticked(old(self).mapper);
                let s0 = if old(self).bus.cpu_stall > 0 { old(self).bus.cpu_stall - 1 } else { 0int };
                &&& final(self).apu == apu
                &&& final(self).bus.cpu_stall == if s0 + r.0 > u32::MAX { u32::MAX as int } else { s0 + r.0 }
                &&& r.1 && (old(cpu).status >> 2u8) & 1 == 0 ==> final(cpu).int is Some
            }),
            ({
                let p = old(self).ppu;
                let d1 = dot_after(p.scanline, p.cycle, p.rendering(), p.f);
                let d2 = dot_after(d1.0, d1.1, p.rendering(), d1.2);
                let d3 = dot_after(d2.0, d2.1, p.rendering(), d2.2);
                let vbl = (p.scanline == 241 && p.cycle == 1) || (d1.0 == 241 && d1.1 == 1) || (d2.0
                    == 241 && d2.1 == 1);
                &&& (final(self).ppu.scanline, final(self).ppu.cycle, final(self).ppu.f) == d3
                &&& nmi ==> vbl
                &&& vbl && p.nmi_enabled() && !p.early_read ==> nmi
                &&& nmi ==> final(cpu).int == Some(IntType::NMI) || final(cpu).int == Some(IntType::DelayedNMI)
            }),
            old(self).bus.cpu_stall == 0 ==> final(cpu).cycle == if old(cpu).cycle > 0 {
                (old(cpu).cycle - 1) as u32
            } else {
                0
            },
            old(self).bus.cpu_stall > 0 ==> final(cpu).cycle == old(cpu).cycle,
    {
        if self.bus.cpu_stall == 0 {
            cpu.tick();
        } else {
            self.bus.cpu_stall = self.bus.cpu_stall - 1;
        }
        let (stall, irq) = self.apu.tick(&self.mapper, host);
        self.bus.cpu_stall(stall);
        if irq {
            cpu.trigger_irq();
        }
        let first = self.ppu_dot(cpu, host);
        let second = self.ppu_dot(cpu, host);
        let third = self.ppu_dot(cpu, host);
        let mut nmi_after_tick = false;
        if first || second || third {
            nmi_after_tick = !first;
            if cpu.cycle == 0 && nmi_after_tick {
                cpu.trigger_delayed_nmi();
            } else {
                cpu.trigger_nmi();
            }
        }
        self.bus.nmi_after_tick = nmi_after_tick;
        if self.bus.ppu_sampler.tick() {
            host.frame();
        }
        first || second || third
    }

    /// One PPU dot and the mapper hook that follows it; returns the PPU's NMI request.
    fn ppu_dot<H: Screen + Speaker + InputPoller>(&mut self, cpu: &mut CPU, host: &mut H) -> (nmi:
        bool)
        requires
            old(self).wf(),
        ensures
            final(self).wf(),
            final(self).keeps_memory(*old(self)),
            final(cpu).same_regs(*old(cpu)),
            final(cpu).cycle == old(cpu).cycle,
            final(self).bus == old(self).bus,
            final(self).apu == old(self).apu,
            old(cpu).int is Some ==> final(cpu).int is Some,
            ({
                let p = old(self).ppu;
                let at_vbl = p.scanline == 241 && p.cycle == 1;
                &&& (final(self).ppu.scanline, final(self).ppu.cycle, final(self).ppu.f) == dot_after(
                    p.scanline, p.cycle, p.rendering(), p.f)
                &&& final(self).ppu.ppuctl == p.ppuctl && final(self).ppu.ppumask == p.ppumask
                &&& nmi ==> at_vbl
                &&& at_vbl && p.nmi_enabled() && !p.early_read ==> nmi
                &&& !at_vbl && !(p.scanline == 261 && p.cycle == 1) ==> final(self).ppu.early_read == p.early_read
            }),
    {
        let ghost st = self.ppu.ppustatus;
        let nmi = self.ppu.tick(&self.mapper, host);
        assert((st | 0x80u8) >> 7u8 & 1 == 1) by (bit_vector);
        let rendering = self.ppu.get_show_bg() || self.ppu.get_show_sp();
        if self.mapper.tick(self.ppu.scanline, self.ppu.cycle, rendering) {
            cpu.trigger_irq();
        }
        nmi
    }

    /// A read on the CPU bus: one cycle of machine time, then the access.
    pub fn read<H: Screen + Speaker + InputPoller>(&mut self, cpu: &mut CPU, host: &mut H, addr: u16) -> (r: u8)
        requires
            old(self).wf(),
        ensures
            final(self).wf(),
            final(self).keeps_memory(*old(self)),
            final(cpu).same_regs(*old(cpu)),
            final(cpu).cycle <= old(cpu).cycle,
            addr < 0x2000 ==> r == old(self).sram@[(addr % 0x800) as int],
            addr >= 0x6000 ==> r == old(self).mapper.spec_read(addr),
            0x4018 <= addr < 0x6000 ==> r == 0,
    {
        self.tick(cpu, host);
        self.read_without_tick(cpu, host, addr)
    }
}

impl CPUMemory {
    /// A write on the CPU bus without advancing the clock.
    pub fn write_without_tick<H: Screen + Speaker + InputPoller>(
        &mut self,
        cpu: &mut CPU,
        host: &mut H,
        addr: u16,
        data: u8,
    )
        requires
            old(self).wf(),
        ensures
            final(self).wf(),
            final(cpu).same_regs(*old(cpu)),
            final(cpu).cycle == old(cpu).cycle,
            addr < 0x2000 ==> *final(self) == (CPUMemory { sram: final(self).sram, ..*old(self) })
                && final(self).sram@ == old(self).sram@.update((addr % 0x800) as int, data)
                && *final(cpu) == *old(cpu),
            addr >= 0x6000 ==> *final(self) == (CPUMemory { mapper: final(self).mapper, ..*old(self) })
                && Mapper::write_post(old(self).mapper, final(self).mapper, addr, data)
                && *final(cpu) == *old(cpu),
            0x4018 <= addr < 0x6000 ==> *final(self) == *old(self) && *final(cpu) == *old(cpu),
            0x2000 <= addr < 0x6000 && addr != 0x4014 ==> final(self).sram@ == old(self).sram@,
            addr == 0x4014 ==> final(self).sram@ == old(self).sram@ && final(self).bus.cpu_stall
                == if old(self).bus.cpu_stall as int + 513 + old(cpu).cycle % 2 > u32::MAX as int {
                u32::MAX as int
            } else {
                old(self).bus.cpu_stall + 513 + old(cpu).cycle % 2
            },
            addr == 0x4014 && data < 0x20 ==> forall|i: int|
                0 <= i < 256 ==> #[trigger] final(self).ppu.oam@[(old(self).ppu.oamaddr + i) % 256]
                    == old(self).sram@[((data as int * 256 + i) % 0x800) as int],
            0x4000 <= addr < 0x6000 ==> final(self).mapper == old(self).mapper,
            0x2000 <= addr < 0x4000 ==> ppu_reg_effect(*old(self), *final(self), *old(cpu), *final(cpu),
                addr % 8, data),
            0x4000 <= addr < 0x4018 && addr != 0x4014 && addr != 0x4016 ==> *final(self) == (CPUMemory {
                apu: final(self).apu,
                ..*old(self)
            }) && apu_reg_effect(old(self).apu, final(self).apu, addr, data) && *final(cpu) == *old(cpu),
            addr == 0x4014 && data >= 0x60 ==> forall|i: int|
                0 <= i < 256 ==> #[trigger] final(self).ppu.oam@[(old(self).ppu.oamaddr + i) % 256]
                    == old(self).mapper.spec_read((data as int * 256 + i) as u16),
            addr == 0x4014 ==> final(self).ppu.oamaddr == old(self).ppu.oamaddr && final(self).ppu.reg == data,
    {
        if addr < 0x2000 {
            self.sram.set((addr % 0x800) as usize, data);
        } else if addr < 0x4000 {
            self.write_ppu_reg(cpu, addr % 8, data);
        } else if addr < 0x5000 {
            if addr == 0x4014 {
                self.oam_dma(cpu, host, data);
            } else if addr == 0x4016 {
                match &mut self.ctl1 {
                    Some(c) => c.write(host, data),
                    None => {},
                }
                match &mut self.ctl2 {
                    Some(c) => c.write(host, data),
                    None => {},
                }
            } else if addr < 0x4018 {
                self.write_apu_reg(addr, data);
            }
        } else if addr < 0x6000 {
        } else {
            self.mapper.write(addr, data);
        }
    }

    /// A write to one of the eight PPU registers, with the NMI races of PPUCTRL: clearing
    /// NMI-enable just after an NMI was raised suppresses it; setting it during vblank raises a
    /// delayed one.
    fn write_ppu_reg(&mut self, cpu: &mut CPU, reg: u16, data: u8)
        requires
            old(self).wf(),
            reg < 8,
        ensures
            final(self).wf(),
            final(cpu).same_regs(*old(cpu)),
            final(cpu).cycle == old(cpu).cycle,
            ppu_reg_effect(*old(self), *final(self), *old(cpu), *final(cpu), reg, data),
    {
        if reg == 0 {
            let old_nmi = self.ppu.get_flag_nmi();
            self.ppu.write_ctl(data);
            if !self.ppu.try_nmi() && self.bus.nmi_after_tick {
                cpu.suppress_nmi();
            }
            if !old_nmi && self.ppu.try_nmi() && self.ppu.vblank_lines {
                cpu.trigger_delayed_nmi();
            }
        } else if reg == 1 {
            self.ppu.write_mask(data);
        } else if reg == 2 {
        } else if reg == 3 {
            self.ppu.write_oamaddr(data);
        } else if reg == 4 {
            self.ppu.write_oamdata(data);
        } else if reg == 5 {
            self.ppu.write_scroll(data);
        } else if reg == 6 {
            self.ppu.write_addr(data);
        } else {
            self.ppu.write_data(&mut self.mapper, data);
        }
    }

    /// A write to an APU register (0x4000..0x4013, 0x4015, 0x4017).
    fn write_apu_reg(&mut self, addr: u16, data: u8)
        requires
            old(self).wf(),
        ensures
            final(self).wf(),
            *final(self) == (CPUMemory { apu: final(self).apu, ..*old(self) }),
            apu_reg_effect(old(self).apu, final(self).apu, addr, data),
    {
        let apu = &mut self.apu;
        if addr == 0x4000 {
            apu.pulse1.write_reg1(data);
        } else if addr == 0x4001 {
            apu.pulse1.write_reg2(data);
        } else if addr == 0x4002 {
            apu.pulse1.write_reg3(data);
        } else if addr == 0x4003 {
            apu.pulse1.write_reg4(data);
        } else if addr == 0x4004 {
            apu.pulse2.write_reg1(data);
        } else if addr == 0x4005 {
            apu.pulse2.write_reg2(data);
        } else if addr == 0x4006 {
            apu.pulse2.write_reg3(data);
        } else if addr == 0x4007 {
            apu.pulse2.write_reg4(data);
        } else if addr == 0x4008 {
            apu.triangle.write_reg1(data);
        } else if addr == 0x400a {
            apu.triangle.write_reg3(data);
        } else if addr == 0x400b {
            apu.triangle.write_reg4(data);
        } else if addr == 0x400c {
            apu.noise.write_reg1(data);
        } else if addr == 0x400e {
            apu.noise.write_reg3(data);
        } else if addr == 0x400f {
            apu.noise.write_reg4(data);
        } else if addr == 0x4010 {
            apu.dmc.write_reg1(data);
        } else if addr == 0x4011 {
            apu.dmc.write_reg2(data);
        } else if addr == 0x4012 {
            apu.dmc.write_reg3(data);
        } else if addr == 0x4013 {
            apu.dmc.write_reg4(data);
        } else if addr == 0x4015 {
            apu.write_status(data);
        } else if addr == 0x4017 {
            apu.write_frame_counter(data);
        }
    }

    /// OAM DMA ($4014): stalls the CPU 513 cycles, one more on an odd cycle, and copies the
    /// 256 bytes of CPU page `data` into OAM from OAMADDR on.
    pub fn oam_dma<H: Screen + Speaker + InputPoller>(&mut self, cpu: &mut CPU, host: &mut H, data: u8)
        requires
            old(self).wf(),
        ensures
            final(self).wf(),
            final(cpu).same_regs(*old(cpu)),
            final(cpu).cycle == old(cpu).cycle,
            final(self).sram@ == old(self).sram@,
            final(self).mapper == old(self).mapper,
            final(self).bus.cpu_stall == if old(self).bus.cpu_stall as int + 513 + old(cpu).cycle
                % 2 > u32::MAX as int {
                u32::MAX as int
            } else {
                old(self).bus.cpu_stall + 513 + old(cpu).cycle % 2
            },
            data < 0x20 ==> forall|i: int|
                0 <= i < 256 ==> #[trigger] final(self).ppu.oam@[(old(self).ppu.oamaddr + i) % 256]
                    == old(self).sram@[((data as int * 256 + i) % 0x800) as int],
            data >= 0x60 ==> forall|i: int|
                0 <= i < 256 ==> #[trigger] final(self).ppu.oam@[(old(self).ppu.oamaddr + i) % 256]
                    == old(self).mapper.spec_read((data as int * 256 + i) as u16),
            final(self).ppu.oamaddr == old(self).ppu.oamaddr,
            final(self).ppu.reg == data,
    {
        self.ppu.reg = data;
        let stall = 513 + cpu.cycle % 2;
        self.bus.cpu_stall(stall);
        let start = self.ppu.oamaddr;
        let ghost sram = self.sram@;
        let ghost mapper = self.mapper;
        let ghost stall_after = self.bus.cpu_stall;
        let mut i: u16 = 0;
        while i < 256
            invariant
                self.wf(),
                0 <= i <= 256,
                self.sram@ == sram,
                self.mapper == mapper,
                self.bus.cpu_stall == stall_after,
                cpu.same_regs(*old(cpu)),
                cpu.cycle == old(cpu).cycle,
                data < 0x20 ==> forall|k: int|
                    0 <= k < i ==> #[trigger] self.ppu.oam@[(start + k) % 256] == sram[((data as int
                        * 256 + k) % 0x800) as int],
                data >= 0x60 ==> forall|k: int|
                    0 <= k < i ==> #[trigger] self.ppu.oam@[(start + k) % 256] == mapper.spec_read(
                        (data as int * 256 + k) as u16),
                self.ppu.oamaddr == start,
                start == old(self).ppu.oamaddr,
                self.ppu.reg == data,
            decreases 256 - i,
        {
            let addr = ((data as u16) << 8u16) | i;
            let b = self.read_without_tick(cpu, host, addr);
            let idx = ((start as u16 + i) % 256) as usize;
            self.ppu.oam.set(idx, b);
            proof {
                assert(addr == data as int * 256 + i) by (bit_vector)
                    requires i < 256, addr == ((data as u16) << 8u16) | i;
            }
            i = i + 1;
        }
    }

    /// A write on the CPU bus: one cycle of machine time, then the access.
    pub fn write<H: Screen + Speaker + InputPoller>(&mut self, cpu: &mut CPU, host: &mut H, addr: u16, data: u8)
        requires
            old(self).wf(),
        ensures
            final(self).wf(),
            final(cpu).same_regs(*old(cpu)),
            final(cpu).cycle <= old(cpu).cycle,
            addr < 0x2000 ==> final(self).sram@ == old(self).sram@.update((addr % 0x800) as int, data),
            addr < 0x2000 ==> forall|a: u16| #[trigger] final(self).mapper.spec_read(a) == old(self).mapper.spec_read(a),
            addr >= 0x2000 ==> final(self).sram@ == old(self).sram@,
    {
        self.tick(cpu, host);
        self.write_without_tick(cpu, host, addr, data);
    }
}


impl PPUMemory {
    pub fn check_wf(&self) -> (r: bool)
        ensures
            r == self.wf(),
    {
        self.nametable.len() == 0x800 && self.palette.len() == 0x20
    }
}

impl CPUBus {
    pub fn check_wf(&self) -> (r: bool)
        ensures
            r == self.wf(),
    {
        self.ppu_sampler.check_wf()
    }
}

pub const PPUMEM_STATE_LEN: usize = 2080;

impl PPUMemory {
    pub open spec fn encode_0(&self) -> Seq<u8> {
        self.nametable@
            + self.palette@
    }

    pub open spec fn decodes_0(&self, b: Seq<u8>) -> bool {
        &&& b.len() == 2080
        &&& self.nametable@ == b.subrange(0, 2048)
        &&& self.palette@ == b.subrange(2048, 2080)
    }

    /// The saved form of this state, field by field.
    #[verifier::opaque]
    pub open spec fn encode(&self) -> Seq<u8> {
        self.encode_0()
    }

    /// Whether this state is the one the saved bytes `b` describe.
    #[verifier::opaque]
    pub open spec fn decodes(&self, b: Seq<u8>) -> bool {
        &&& b.len() == 2080
        &&& self.decodes_0(b.subrange(0, 2080))
    }

    /// Equal in every saved field.
    #[verifier::opaque]
    pub open spec fn same_as(&self, o: Self) -> bool {
        &&& self.nametable@ == o.nametable@
        &&& self.palette@ == o.palette@
    }

    fn save_0(&self, out: &mut Vec<u8>)
        requires
            self.wf(),
        ensures
            final(out)@ == old(out)@ + self.encode_0(),
    {
        put_bytes(out, &self.nametable);
        put_bytes(out, &self.palette);
        assert(final(out)@ =~= old(out)@ + self.encode_0());
    }

    pub fn save(&self, out: &mut Vec<u8>)
        requires
            self.wf(),
        ensures
            final(out)@ == old(out)@ + self.encode(),
            self.encode().len() == PPUMEM_STATE_LEN,
    {
        proof {
            reveal(PPUMemory::encode);
        }
        let ghost start = out@;
        self.save_0(out);
        proof {
            lemma_ppumemory_own_0(*self);
        }
        assert(out@ =~= start + self.encode());
    }

    /// The state saved at `pos`, or `None` when the bytes run short or describe no
    /// consistent state.
    pub fn decode(buf: &Vec<u8>, pos: usize) -> (r: Option<Self>)
        ensures
            r matches Some(t) ==> t.wf() && pos + PPUMEM_STATE_LEN <= buf@.len() && t.decodes(
                buf@.subrange(pos as int, pos + PPUMEM_STATE_LEN)),
            (pos + PPUMEM_STATE_LEN <= buf@.len() && exists|t: Self| t.wf() && #[trigger] t.decodes(
                buf@.subrange(pos as int, pos + PPUMEM_STATE_LEN))) ==> r is Some,
    {
        if buf.len() < PPUMEM_STATE_LEN || pos > buf.len() - PPUMEM_STATE_LEN {
            return None;
        }
        let ghost b = buf@.subrange(pos as int, pos + PPUMEM_STATE_LEN);
        proof {
            reveal(PPUMemory::decodes);
        }
        let ghost b0 = b.subrange(0, 2080);
        assert(b0 =~= buf@.subrange(pos + 0, pos + 2080));
        let nametable = get_bytes(buf, pos + 0, 2048);
        assert(b0.subrange(0, 2048) =~= buf@.subrange(pos + 0, pos + 0 + 2048));
        let palette = get_bytes(buf, pos + 2048, 32);
        assert(b0.subrange(2048, 2080) =~= buf@.subrange(pos + 2048, pos + 2048 + 32));
        let t = PPUMemory { nametable, palette };
        assert(t.decodes_0(b0));
        assert(t.decodes(b));
        if !t.check_wf() {
            proof {
                assert forall|u: Self| #[trigger] u.decodes(b) implies !u.wf() by {
                    lemma_ppumemory_unique(t, u, b);
                }
            }
            return None;
        }
        Some(t)
    }

    /// Restores the state saved at `pos`; on failure nothing changes.
    pub fn load(&mut self, buf: &Vec<u8>, pos: usize) -> (ok: bool)
        requires
            old(self).wf(),
        ensures
            final(self).wf(),
            ok ==> pos + PPUMEM_STATE_LEN <= buf@.len() && final(self).decodes(
                buf@.subrange(pos as int, pos + PPUMEM_STATE_LEN)),
            !ok ==> *final(self) == *old(self),
            (pos + PPUMEM_STATE_LEN <= buf@.len() && exists|t: Self| t.wf() && #[trigger] t.decodes(
                buf@.subrange(pos as int, pos + PPUMEM_STATE_LEN))) ==> ok,
    {
        match Self::decode(buf, pos) {
            Some(t) => {
                *self = t;
                true
            },
            None => false,
        }
    }
}

/// Round trip: what `save` writes decodes to the state saved, and any state decoding those
/// bytes equals it in every saved field.
pub proof fn lemma_ppumemory_round_trip(s: PPUMemory, t: PPUMemory)
    requires
        s.wf(),
        t.decodes(s.encode()),
    ensures
        s.decodes(s.encode()),
        t.same_as(s),
{
    lemma_ppumemory_decodes_own(s);
    lemma_ppumemory_unique(s, t, s.encode());
}

/// Two states decoding the same bytes agree in every saved field, and one is consistent
/// exactly when the other is.
pub proof fn lemma_ppumemory_unique(s: PPUMemory, t: PPUMemory, b: Seq<u8>)
    requires
        s.decodes(b),
        t.decodes(b),
    ensures
        t.same_as(s),
        t.wf() == s.wf(),
{
    reveal(PPUMemory::decodes);
    reveal(PPUMemory::same_as);
    lemma_ppumemory_unique_0(s, t, b.subrange(0, 2080));
}

proof fn lemma_ppumemory_unique_0(s: PPUMemory, t: PPUMemory, b: Seq<u8>)
    requires
        s.decodes_0(b),
        t.decodes_0(b),
    ensures
        t.nametable@ == s.nametable@,
        t.palette@ == s.palette@,
{
}

pub proof fn lemma_ppumemory_decodes_own(s: PPUMemory)
    requires
        s.wf(),
    ensures
        s.decodes(s.encode()),
        s.encode().len() == 2080,
{
    reveal(PPUMemory::decodes);
    reveal(PPUMemory::encode);
    lemma_ppumemory_own_0(s);
    let e = s.encode();
    assert(e.subrange(0, 2080) =~= s.encode_0());
}

proof fn lemma_ppumemory_own_0(s: PPUMemory)
    requires
        s.wf(),
    ensures
        s.encode_0().len() == 2080,
        s.decodes_0(s.encode_0()),
{
    let e = s.encode_0();
    assert(e.subrange(0, 2048) =~= s.nametable@);
    assert(e.subrange(2048, 2080) =~= s.palette@);
}


pub const BUS_STATE_LEN: usize = 33;

impl CPUBus {
    pub open spec fn encode_0(&self) -> Seq<u8> {
        enc_bool(self.nmi_after_tick)
            + enc_u32(self.cpu_stall)
            + self.ppu_sampler.encode()
    }

    pub open spec fn decodes_0(&self, b: Seq<u8>) -> bool {
        &&& b.len() == 33
        &&& self.nmi_after_tick == dec_bool(b, 0)
        &&& self.cpu_stall == dec_u32(b, 1)
        &&& self.ppu_sampler.decodes(b.subrange(5, 33))
    }

    /// The saved form of this state, field by field.
    #[verifier::opaque]
    pub open spec fn encode(&self) -> Seq<u8> {
        self.encode_0()
    }

    /// Whether this state is the one the saved bytes `b` describe.
    #[verifier::opaque]
    pub open spec fn decodes(&self, b: Seq<u8>) -> bool {
        &&& b.len() == 33
        &&& self.decodes_0(b.subrange(0, 33))
    }

    /// Equal in every saved field.
    #[verifier::opaque]
    pub open spec fn same_as(&self, o: Self) -> bool {
        &&& self.nmi_after_tick == o.nmi_after_tick
        &&& self.cpu_stall == o.cpu_stall
        &&& self.ppu_sampler.same_as(o.ppu_sampler)
    }

    fn save_0(&self, out: &mut Vec<u8>)
        requires
            self.wf(),
        ensures
            final(out)@ == old(out)@ + self.encode_0(),
    {
        put_bool(out, self.nmi_after_tick);
        put_u32(out, self.cpu_stall);
        self.ppu_sampler.save(out);
        assert(final(out)@ =~= old(out)@ + self.encode_0());
    }

    pub fn save(&self, out: &mut Vec<u8>)
        requires
            self.wf(),
        ensures
            final(out)@ == old(out)@ + self.encode(),
            self.encode().len() == BUS_STATE_LEN,
    {
        proof {
            reveal(CPUBus::encode);
        }
        let ghost start = out@;
        self.save_0(out);
        proof {
            lemma_cpubus_own_0(*self);
        }
        assert(out@ =~= start + self.encode());
    }

    /// The state saved at `pos`, or `None` when the bytes run short or describe no
    /// consistent state.
    pub fn decode(buf: &Vec<u8>, pos: usize) -> (r: Option<Self>)
        ensures
            r matches Some(t) ==> t.wf() && pos + BUS_STATE_LEN <= buf@.len() && t.decodes(
                buf@.subrange(pos as int, pos + BUS_STATE_LEN)),
            (pos + BUS_STATE_LEN <= buf@.len() && exists|t: Self| t.wf() && #[trigger] t.decodes(
                buf@.subrange(pos as int, pos + BUS_STATE_LEN))) ==> r is Some,
    {
        if buf.len() < BUS_STATE_LEN || pos > buf.len() - BUS_STATE_LEN {
            return None;
        }
        let ghost b = buf@.subrange(pos as int, pos + BUS_STATE_LEN);
        proof {
            reveal(CPUBus::decodes);
        }
        let ghost b0 = b.subrange(0, 33);
        assert(b0 =~= buf@.subrange(pos + 0, pos + 33));
        let nmi_after_tick = get_bool(buf, pos + 0);
        let cpu_stall = get_u32(buf, pos + 1);
        let ppu_sampler = match Sampler::decode(buf, pos + 5) {
            Some(v) => v,
            None => {
                proof {
                    assert forall|u: Self| #[trigger] u.decodes(b) implies !u.wf() by {
                        lemma_cpubus_field_ppu_sampler(u, b);
                        assert(b.subrange(5, 33) =~= buf@.subrange(pos + 5, pos + 5 + 28));
                    }
                }
                return None;
            },
        };
        assert(b0.subrange(5, 33) =~= buf@.subrange(pos + 5, pos + 5 + 28));
        let t = CPUBus { nmi_after_tick, cpu_stall, ppu_sampler };
        assert(t.decodes_0(b0));
        assert(t.decodes(b));
        if !t.check_wf() {
            proof {
                assert forall|u: Self| #[trigger] u.decodes(b) implies !u.wf() by {
                    lemma_cpubus_unique(t, u, b);
                }
            }
            return None;
        }
        Some(t)
    }

    /// Restores the state saved at `pos`; on failure nothing changes.
    pub fn load(&mut self, buf: &Vec<u8>, pos: usize) -> (ok: bool)
        requires
            old(self).wf(),
        ensures
            final(self).wf(),
            ok ==> pos + BUS_STATE_LEN <= buf@.len() && final(self).decodes(
                buf@.subrange(pos as int, pos + BUS_STATE_LEN)),
            !ok ==> *final(self) == *old(self),
            (pos + BUS_STATE_LEN <= buf@.len() && exists|t: Self| t.wf() && #[trigger] t.decodes(
                buf@.subrange(pos as int, pos + BUS_STATE_LEN))) ==> ok,
    {
        match Self::decode(buf, pos) {
            Some(t) => {
                *self = t;
                true
            },
            None => false,
        }
    }
}

/// Round trip: what `save` writes decodes to the state saved, and any state decoding those
/// bytes equals it in every saved field.
pub proof fn lemma_cpubus_round_trip(s: CPUBus, t: CPUBus)
    requires
        s.wf(),
        t.decodes(s.encode()),
    ensures
        s.decodes(s.encode()),
        t.same_as(s),
{
    lemma_cpubus_decodes_own(s);
    lemma_cpubus_unique(s, t, s.encode());
}

/// Two states decoding the same bytes agree in every saved field, and one is consistent
/// exactly when the other is.
pub proof fn lemma_cpubus_unique(s: CPUBus, t: CPUBus, b: Seq<u8>)
    requires
        s.decodes(b),
        t.decodes(b),
    ensures
        t.same_as(s),
        t.wf() == s.wf(),
{
    reveal(CPUBus::decodes);
    reveal(CPUBus::same_as);
    lemma_cpubus_unique_0(s, t, b.subrange(0, 33));
}

proof fn lemma_cpubus_unique_0(s: CPUBus, t: CPUBus, b: Seq<u8>)
    requires
        s.decodes_0(b),
        t.decodes_0(b),
    ensures
        t.nmi_after_tick == s.nmi_after_tick,
        t.cpu_stall == s.cpu_stall,
        t.ppu_sampler.same_as(s.ppu_sampler),
        t.ppu_sampler.wf() == s.ppu_sampler.wf(),
{
    lemma_sampler_unique(s.ppu_sampler, t.ppu_sampler, b.subrange(5, 33));
}

proof fn lemma_cpubus_field_ppu_sampler(u: CPUBus, b: Seq<u8>)
    requires
        u.decodes(b),
    ensures
        u.ppu_sampler.decodes(b.subrange(5, 33)),
        u.wf() ==> u.ppu_sampler.wf(),
{
    reveal(CPUBus::decodes);
    assert(b.subrange(0, 33).subrange(5, 33) =~= b.subrange(5, 33));
}

pub proof fn lemma_cpubus_decodes_own(s: CPUBus)
    requires
        s.wf(),
    ensures
        s.decodes(s.encode()),
        s.encode().len() == 33,
{
    reveal(CPUBus::decodes);
    reveal(CPUBus::encode);
    lemma_cpubus_own_0(s);
    let e = s.encode();
    assert(e.subrange(0, 33) =~= s.encode_0());
}

proof fn lemma_cpubus_own_0(s: CPUBus)
    requires
        s.wf(),
    ensures
        s.encode_0().len() == 33,
        s.decodes_0(s.encode_0()),
{
    lemma_sampler_decodes_own(s.ppu_sampler);
    let e = s.encode_0();
    assert(e.subrange(0, 1) =~= enc_bool(s.nmi_after_tick));
    lemma_dec_bool(e, 0, s.nmi_after_tick);
    assert(e.subrange(1, 5) =~= enc_u32(s.cpu_stall));
    lemma_dec_u32(e, 1, s.cpu_stall);
    assert(e.subrange(5, 33) =~= s.ppu_sampler.encode());
}


/// Length of the saved machine: CPU, work RAM, bus, PPU and APU in this order.
pub const MACHINE_STATE_LEN: usize = 5156;

/// Whether `b` holds at `pos` a memory side this machine accepts: consistent bus, PPU and APU
/// states after the work RAM, then a mapper state `mapper` accepts.
pub open spec fn mem_loadable(mapper: Mapper, b: Seq<u8>, pos: int) -> bool {
    let p1 = pos + 0x800;
    let p2 = p1 + BUS_STATE_LEN;
    let p3 = p2 + PPU_STATE_LEN;
    &&& pos + MACHINE_STATE_LEN - CPU_STATE_LEN <= b.len()
    &&& exists|t: CPUBus| t.wf() && #[trigger] t.decodes(b.subrange(p1, p1 + BUS_STATE_LEN))
    &&& exists|t: PPU| t.wf() && #[trigger] t.decodes(b.subrange(p2, p2 + PPU_STATE_LEN))
    &&& exists|t: APU| t.wf() && #[trigger] t.decodes(b.subrange(p3, p3 + APU_STATE_LEN))
    &&& mapper.can_load(b, pos + MACHINE_STATE_LEN - CPU_STATE_LEN)
}

impl CPUMemory {
    /// The saved form of the memory side: work RAM, bus, PPU, APU.
    pub open spec fn encode(&self) -> Seq<u8> {
        self.sram@ + self.bus.encode() + self.ppu.encode() + self.apu.encode()
    }

    pub open spec fn decodes(&self, b: Seq<u8>) -> bool {
        let p1 = 0x800 + BUS_STATE_LEN;
        let p2 = p1 + PPU_STATE_LEN;
        &&& b.len() == p2 + APU_STATE_LEN
        &&& self.sram@ == b.subrange(0, 0x800)
        &&& self.bus.decodes(b.subrange(0x800, p1 as int))
        &&& self.ppu.decodes(b.subrange(p1 as int, p2 as int))
        &&& self.apu.decodes(b.subrange(p2 as int, b.len() as int))
    }

    /// Equal in every saved part.
    pub open spec fn same_as(&self, o: CPUMemory) -> bool {
        &&& self.sram@ == o.sram@
        &&& self.bus.same_as(o.bus)
        &&& self.ppu.same_as(o.ppu)
        &&& self.apu.same_as(o.apu)
    }

    /// Saves work RAM, bus, PPU and APU, then the mapper and cartridge.
    pub fn save(&self, out: &mut Vec<u8>)
        requires
            self.wf(),
        ensures
            final(out)@ == old(out)@ + self.encode() + self.mapper.encode(),
    {
        put_bytes(out, &self.sram);
        self.bus.save(out);
        self.ppu.save(out);
        self.apu.save(out);
        assert(out@ =~= old(out)@ + self.encode());
        self.mapper.save(out);
    }

    /// Restores work RAM, bus, PPU and APU from `pos`, then the mapper and cartridge after
    /// them; all or nothing.
    pub fn load(&mut self, buf: &Vec<u8>, pos: usize) -> (ok: bool)
        requires
            old(self).wf(),
        ensures
            final(self).wf(),
            ok ==> pos + MACHINE_STATE_LEN - CPU_STATE_LEN <= buf@.len() && final(self).decodes(
                buf@.subrange(pos as int, pos + MACHINE_STATE_LEN - CPU_STATE_LEN)),
            ok ==> final(self).mapper.cart().encode() == buf@.subrange(
                pos + MACHINE_STATE_LEN - CPU_STATE_LEN + old(self).mapper.regs_len(),
                pos + MACHINE_STATE_LEN - CPU_STATE_LEN + old(self).mapper.regs_len() + 1 + SRAM_SIZE
                    + old(self).mapper.cart().chr_rom@.len(),
            ),
            ok ==> final(self).mapper.cart().prg_rom@ == old(self).mapper.cart().prg_rom@,
            !ok ==> *final(self) == *old(self),
            ok == mem_loadable(old(self).mapper, buf@, pos as int),
    {
        let n = MACHINE_STATE_LEN - CPU_STATE_LEN;
        if buf.len() < n || pos > buf.len() - n {
            return false;
        }
        let sram = get_bytes(buf, pos, 0x800);
        let p1 = pos + 0x800;
        let p2 = p1 + BUS_STATE_LEN;
        let p3 = p2 + PPU_STATE_LEN;
        let bus = match CPUBus::decode(buf, p1) {
            Some(v) => v,
            None => {
                return false;
            },
        };
        let ppu = match PPU::decode(buf, p2) {
            Some(v) => v,
            None => {
                return false;
            },
        };
        let apu = match APU::decode(buf, p3) {
            Some(v) => v,
            None => {
                return false;
            },
        };
        proof {
            let b = buf@.subrange(pos as int, pos + n);
            assert(b.subrange(0, 0x800) =~= buf@.subrange(pos as int, pos + 0x800));
            assert(b.subrange(0x800, 0x800 + BUS_STATE_LEN) =~= buf@.subrange(p1 as int, p1 + BUS_STATE_LEN));
            assert(b.subrange(0x800 + BUS_STATE_LEN, 0x800 + BUS_STATE_LEN + PPU_STATE_LEN) =~= buf@.subrange(p2 as int, p2 + PPU_STATE_LEN));
            assert(b.subrange(0x800 + BUS_STATE_LEN + PPU_STATE_LEN, b.len() as int) =~= buf@.subrange(p3 as int, p3 + APU_STATE_LEN));
        }
        if !self.mapper.load(buf, pos + n) {
            return false;
        }
        self.sram = sram;
        self.bus = bus;
        self.ppu = ppu;
        self.apu = apu;
        true
    }
}

/// Saves the machine: the CPU, then work RAM, bus, PPU and APU, then mapper and cartridge.
pub fn save_state(cpu: &CPU, mem: &CPUMemory, out: &mut Vec<u8>)
    requires
        cpu.wf(),
        mem.wf(),
    ensures
        final(out)@ == old(out)@ + cpu.encode() + mem.encode() + mem.mapper.encode(),
{
    cpu.save(out);
    mem.save(out);
}

/// Restores a machine saved by `save_state` at `pos`; on failure neither part changes.
pub fn load_state(cpu: &mut CPU, mem: &mut CPUMemory, buf: &Vec<u8>, pos: usize) -> (ok: bool)
    requires
        old(cpu).wf(),
        old(mem).wf(),
    ensures
        final(cpu).wf(),
        final(mem).wf(),
        ok ==> pos + MACHINE_STATE_LEN <= buf@.len() && final(cpu).decodes(
            buf@.subrange(pos as int, pos + CPU_STATE_LEN)) && final(mem).decodes(
            buf@.subrange(pos + CPU_STATE_LEN, pos + MACHINE_STATE_LEN)),
        !ok ==> *final(cpu) == *old(cpu) && *final(mem) == *old(mem),
        ok == (pos + MACHINE_STATE_LEN <= buf@.len() && (exists|t: CPU| t.wf() && #[trigger] t.decodes(
            buf@.subrange(pos as int, pos + CPU_STATE_LEN))) && mem_loadable(old(mem).mapper, buf@,
            pos + CPU_STATE_LEN)),
{
    if buf.len() < MACHINE_STATE_LEN || pos > buf.len() - MACHINE_STATE_LEN {
        return false;
    }
    let c = match CPU::decode(buf, pos) {
        Some(c) => c,
        None => {
            return false;
        },
    };
    if !mem.load(buf, pos + CPU_STATE_LEN) {
        return false;
    }
    *cpu = c;
    true
}

/// Round trip: a machine restored from what `save_state` wrote is the machine saved, in every
/// saved field of the CPU, work RAM, bus, PPU and APU.
pub proof fn lemma_state_round_trip(cpu: CPU, mem: CPUMemory, cpu2: CPU, mem2: CPUMemory)
    requires
        cpu.wf(),
        mem.wf(),
        cpu2.decodes(cpu.encode()),
        mem2.decodes(mem.encode()),
    ensures
        cpu2.same_as(cpu),
        mem2.same_as(mem),
{
    lemma_cpu_round_trip(cpu, cpu2);
    lemma_bus_round_trip_parts(mem, mem2);
}

proof fn lemma_bus_round_trip_parts(mem: CPUMemory, mem2: CPUMemory)
    requires
        mem.wf(),
        mem2.decodes(mem.encode()),
    ensures
        mem2.same_as(mem),
{
    lemma_cpubus_decodes_own(mem.bus);
    lemma_ppu_round_trip_len(mem.ppu);
    lemma_apu_round_trip_len(mem.apu);
    let e = mem.encode();
    let p1 = 0x800 + BUS_STATE_LEN;
    let p2 = p1 + PPU_STATE_LEN;
    assert(e.subrange(0, 0x800) =~= mem.sram@);
    assert(e.subrange(0x800, p1 as int) =~= mem.bus.encode());
    assert(e.subrange(p1 as int, p2 as int) =~= mem.ppu.encode());
    assert(e.subrange(p2 as int, e.len() as int) =~= mem.apu.encode());
    lemma_ppu_round_trip(mem.ppu, mem2.ppu);
    lemma_apu_round_trip(mem.apu, mem2.apu);
    lemma_cpubus_unique(mem.bus, mem2.bus, mem.bus.encode());
}

proof fn lemma_ppu_round_trip_len(p: PPU)
    requires
        p.wf(),
    ensures
        p.encode().len() == PPU_STATE_LEN,
{
    crate::ppu::lemma_ppu_decodes_own(p);
}

proof fn lemma_apu_round_trip_len(a: APU)
    requires
        a.wf(),
    ensures
        a.encode().len() == APU_STATE_LEN,
{
    crate::apu::lemma_apu_decodes_own(a);
}

} // verus!
