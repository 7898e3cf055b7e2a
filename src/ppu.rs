use vstd::prelude::*;
use crate::mapper::Mapper;
use crate::memory::{PPUMemory, palette_index, lemma_ppumemory_unique, lemma_ppumemory_decodes_own};
use crate::utils::{
    put_u8, put_bool, put_u16, put_u64, put_bytes, put_words, get_u8, get_bool, get_u16, get_u64,
    get_bytes, get_words, enc_bool, enc_u16, enc_u64, enc_words, dec_bool, dec_u16, dec_u64, dec_words,
    lemma_dec_u8, lemma_dec_bool, lemma_dec_u16, lemma_dec_u64, lemma_words_own,
};

verus! {

/// The host's video sink.
pub trait Screen {
    /// One pixel: x in 0..255, y in 0..239, a 6-bit NES color.
    fn put(&mut self, x: u8, y: u8, color: u8);

    /// The visible part of a frame is complete.
    fn render(&mut self);

    /// Present a frame (60 Hz).
    fn frame(&mut self);
}

pub const FLAG_OVERFLOW: u8 = 0x20;
pub const FLAG_SPRITE_ZERO: u8 = 0x40;
pub const FLAG_VBLANK: u8 = 0x80;
/// A sprite-cache entry with no opaque sprite pixel.
pub const SP_NONE: u16 = 0xffff;

/// The Picture Processing Unit.
pub struct PPU {
    pub scanline: u16,
    /// dot within the current scanline
    pub cycle: u16,
    pub ppuctl: u8,
    pub ppumask: u8,
    pub ppustatus: u8,
    pub oamaddr: u8,
    /// the last value written to any register (open bus)
    pub reg: u8,
    /// fine x scroll
    pub x: u8,
    /// current vram address
    pub v: u16,
    /// temporary vram address
    pub t: u16,
    /// first/second write toggle
    pub w: bool,
    /// odd frame
    pub f: bool,
    /// eight 4-bit background pixel codes, the current one lowest
    pub bg_pixel: u64,
    pub bg_nt: u8,
    pub bg_attr: u8,
    pub bg_bit_low: u8,
    pub bg_bit_high: u8,
    /// 64 sprites of 4 bytes: y, tile, attributes, x
    pub oam: Vec<u8>,
    /// indices of the sprites on the next scanline, 0xff for none
    pub oam2: Vec<u8>,
    /// per-x sprite pixel for the current scanline: zero-sprite flag (bit 15), priority
    /// (bit 8) and palette index (bits 0..3), or SP_NONE
    pub sp_cache: Vec<u16>,
    pub vblank: bool,
    pub vblank_lines: bool,
    pub buffered_read: u8,
    pub early_read: bool,
    pub mem: PPUMemory,
}

/// How far a $2006/$2007 access moves v: 1, or 32 when PPUCTRL bit 2 is set.
pub open spec fn vram_step(ctl: u8) -> u16 {
    if (ctl >> 2) & 1 == 0 {
        1
    } else {
        32
    }
}

/// The eight background pixel codes (2 bits of palette, 2 bits of color) of one tile row,
/// leftmost (pattern bit 7) in the lowest nibble.
pub open spec fn tile_row(attr: u8, low: u8, high: u8) -> u64 {
    tile_px(attr, low, high, 7) | (tile_px(attr, low, high, 6) << 4u64) | (tile_px(attr, low, high, 5)
        << 8u64) | (tile_px(attr, low, high, 4) << 12u64) | (tile_px(attr, low, high, 3) << 16u64)
        | (tile_px(attr, low, high, 2) << 20u64) | (tile_px(attr, low, high, 1) << 24u64) | (
    tile_px(attr, low, high, 0) << 28u64)
}

/// The code of the pixel drawn from pattern bit `i`.
pub open spec fn tile_px(attr: u8, low: u8, high: u8, i: u64) -> u64 {
    (((attr & 3) as u64) << 2u64) | ((low as u64 >> i) & 1) | (((high as u64 >> i) & 1) << 1u64)
}

/// The palette address one pixel shows, from its background code and sprite-cache entry, and
/// whether it is a sprite-zero hit. `x` is the screen column.
pub open spec fn blend(bg: u16, sp_entry: u16, x: u16) -> (u16, bool) {
    let bg_pidx = bg & 3;
    let has_sp = sp_entry != SP_NONE;
    let pri = if has_sp { (sp_entry >> 8) & 1 } else { 1 };
    let sp = if has_sp { sp_entry & 0x0f } else { 0 };
    let hit = has_sp && (sp_entry >> 15) == 1 && bg_pidx != 0 && x != 0xff;
    let addr = if (pri == 0 || bg_pidx == 0) && sp & 3 != 0 {
        0x10 | sp
    } else if bg_pidx == 0 {
        0
    } else {
        bg
    };
    (addr, hit)
}

/// The byte with its bit order reversed.
pub open spec fn reversed(x: u8) -> u8 {
    let a = ((x & 0xaa) >> 1u8) | ((x & 0x55) << 1u8);
    let b = ((a & 0xcc) >> 2u8) | ((a & 0x33) << 2u8);
    ((b & 0xf0) >> 4u8) | ((b & 0x0f) << 4u8)
}

pub fn reverse_byte(x: u8) -> (r: u8)
    ensures
        r == reversed(x),
        forall|i: u8| i < 8 ==> #[trigger] ((r >> i) & 1) == (x >> (7 - i) as u8) & 1,
{
    let a = ((x & 0xaa) >> 1u8) | ((x & 0x55) << 1u8);
    let b = ((a & 0xcc) >> 2u8) | ((a & 0x33) << 2u8);
    let c = ((b & 0xf0) >> 4u8) | ((b & 0x0f) << 4u8);
    assert(forall|i: u8| i < 8 ==> #[trigger] ((c >> i) & 1) == (x >> (7 - i) as u8) & 1)
        by (bit_vector)
        requires
            a == ((x & 0xaa) >> 1u8) | ((x & 0x55) << 1u8),
            b == ((a & 0xcc) >> 2u8) | ((a & 0x33) << 2u8),
            c == ((b & 0xf0) >> 4u8) | ((b & 0x0f) << 4u8),
    ;
    c
}

fn pixel_code(attr: u8, low: u8, high: u8, i: u64) -> (r: u64)
    requires
        i < 8,
    ensures
        r == tile_px(attr, low, high, i),
        r < 0x10,
{
    let r = (((attr & 3) as u64) << 2u64) | ((low as u64 >> i) & 1) | (((high as u64 >> i) & 1)
        << 1u64);
    assert(r < 0x10) by (bit_vector)
        requires
            r == (((attr & 3) as u64) << 2u64) | ((low as u64 >> i) & 1) | (((high as u64 >> i)
                & 1) << 1u64),
    ;
    r
}

pub fn load_tile_row(attr: u8, low: u8, high: u8) -> (r: u64)
    ensures
        r == tile_row(attr, low, high),
        r < 0x1_0000_0000,
{
    let p7 = pixel_code(attr, low, high, 7);
    let p6 = pixel_code(attr, low, high, 6);
    let p5 = pixel_code(attr, low, high, 5);
    let p4 = pixel_code(attr, low, high, 4);
    let p3 = pixel_code(attr, low, high, 3);
    let p2 = pixel_code(attr, low, high, 2);
    let p1 = pixel_code(attr, low, high, 1);
    let p0 = pixel_code(attr, low, high, 0);
    let r = p7 | (p6 << 4u64) | (p5 << 8u64) | (p4 << 12u64) | (p3 << 16u64) | (p2 << 20u64) | (
    p1 << 24u64) | (p0 << 28u64);
    assert(r < 0x1_0000_0000) by (bit_vector)
        requires
            p7 < 0x10 && p6 < 0x10 && p5 < 0x10 && p4 < 0x10 && p3 < 0x10 && p2 < 0x10 && p1 < 0x10
                && p0 < 0x10,
            r == p7 | (p6 << 4u64) | (p5 << 8u64) | (p4 << 12u64) | (p3 << 16u64) | (p2 << 20u64)
                | (p1 << 24u64) | (p0 << 28u64),
    ;
    r
}

pub fn blend_pixel(bg: u16, sp_entry: u16, x: u16) -> (r: (u16, bool))
    requires
        bg < 0x10,
    ensures
        r == blend(bg, sp_entry, x),
        r.0 < 0x20,
{
    let bg_pidx = bg & 3;
    let has_sp = sp_entry != SP_NONE;
    let pri = if has_sp { (sp_entry >> 8) & 1 } else { 1 };
    let sp = if has_sp { sp_entry & 0x0f } else { 0 };
    let hit = has_sp && (sp_entry >> 15) == 1 && bg_pidx != 0 && x != 0xff;
    let addr = if (pri == 0 || bg_pidx == 0) && sp & 3 != 0 {
        0x10 | sp
    } else if bg_pidx == 0 {
        0
    } else {
        bg
    };
    assert(sp < 0x10 ==> (0x10 | sp) < 0x20) by (bit_vector);
    assert(sp_entry & 0x0f < 0x10) by (bit_vector);
    (addr, hit)
}

/// Where the PPU stands after one dot: the next dot of the scanline, wrapping to the next
/// scanline after dot 340 and to scanline 0 after 261, except that on odd frames with
/// rendering enabled the pre-render scanline skips from dot 338 to 340.
pub open spec fn next_pos(scanline: u16, cycle: u16, rendering: bool, odd: bool) -> (u16, u16) {
    if rendering && scanline == 261 && cycle == 338 && odd {
        (261, 340)
    } else if cycle < 340 {
        (scanline, (cycle + 1) as u16)
    } else if scanline < 261 {
        ((scanline + 1) as u16, 0)
    } else {
        (0, 0)
    }
}

impl PPU {
    pub open spec fn wf(&self) -> bool {
        &&& self.mem.wf()
        &&& self.oam@.len() == 256
        &&& self.oam2@.len() == 8
        &&& self.sp_cache@.len() == 256
        &&& self.scanline <= 261
        &&& self.cycle <= 340
        &&& self.x < 8
        &&& forall|i: int| 0 <= i < 8 ==> self.oam2@[i] < 64 || self.oam2@[i] == 0xff
    }

    pub open spec fn rendering(&self) -> bool {
        (self.ppumask >> 3) & 1 == 1 || (self.ppumask >> 4) & 1 == 1
    }

    pub open spec fn nmi_enabled(&self) -> bool {
        (self.ppuctl >> 7) == 1
    }

    pub open spec fn vblank_flag(&self) -> bool {
        (self.ppustatus >> 7) & 1 == 1
    }

    pub open spec fn ctl_written(self, data: u8) -> PPU {
        PPU { reg: data, ppuctl: data, t: (self.t & 0x73ff) | ((data as u16 & 3) << 10u16), ..self }
    }

    pub open spec fn mask_written(self, data: u8) -> PPU {
        PPU { reg: data, ppumask: data, ..self }
    }

    pub open spec fn oamaddr_written(self, data: u8) -> PPU {
        PPU { reg: data, oamaddr: data, ..self }
    }

    pub open spec fn scroll_written(self, data: u8) -> PPU {
        let d = data as u16;
        if !self.w {
            PPU { reg: data, t: (self.t & 0x7fe0) | (d >> 3u16), x: data & 0x07, w: true, ..self }
        } else {
            PPU {
                reg: data,
                t: (self.t & 0x0c1f) | ((d & 0xf8) << 2u16) | ((d & 0x07) << 12u16),
                w: false,
                ..self
            }
        }
    }

    pub open spec fn addr_written(self, data: u8) -> PPU {
        let d = data as u16;
        if !self.w {
            PPU { reg: data, t: (self.t & 0x00ff) | ((d & 0x3f) << 8u16), w: true, ..self }
        } else {
            let t = (self.t & 0xff00) | d;
            PPU { reg: data, t, v: t, w: false, ..self }
        }
    }

    pub fn new() -> (r: Self)
        ensures
            r.wf(),
            r.scanline == 241 && r.cycle == 0,
            r.ppuctl == 0 && r.ppumask == 0 && r.ppustatus == 0xa0 && r.oamaddr == 0,
            r.v == 0 && r.t == 0 && r.x == 0 && !r.w && r.f,
            r.vblank_lines && !r.early_read && r.buffered_read == 0,
            forall|i: int| 0 <= i < 256 ==> r.oam@[i] == 0 && r.sp_cache@[i] == SP_NONE,
            forall|i: int| 0 <= i < 8 ==> r.oam2@[i] == 0xff,
            forall|i: int| 0 <= i < 0x800 ==> r.mem.nametable@[i] == 0,
            forall|i: int| 0 <= i < 0x20 ==> r.mem.palette@[i] == 0,
            r.bg_pixel == 0 && r.reg == 0 && r.ppustatus == 0xa0,
    {
        PPU {
            scanline: 241,
            cycle: 0,
            ppuctl: 0,
            ppumask: 0,
            ppustatus: 0xa0,
            oamaddr: 0,
            reg: 0,
            x: 0,
            v: 0,
            t: 0,
            w: false,
            f: true,
            bg_pixel: 0,
            bg_nt: 0,
            bg_attr: 0,
            bg_bit_low: 0,
            bg_bit_high: 0,
            oam: vec![0u8; 256],
            oam2: vec![0xffu8; 8],
            sp_cache: vec![SP_NONE; 256],
            vblank: false,
            vblank_lines: true,
            buffered_read: 0,
            early_read: false,
            mem: PPUMemory::new(),
        }
    }

    pub fn reset(&mut self)
        requires
            old(self).wf(),
        ensures
            final(self).wf(),
            *final(self) == (PPU {
                ppuctl: 0,
                ppumask: 0,
                ppustatus: old(self).ppustatus & 0x80,
                w: false,
                buffered_read: 0,
                cycle: 0,
                scanline: 241,
                vblank_lines: true,
                ..*old(self)
            }),
    {
        self.ppuctl = 0;
        self.ppumask = 0;
        self.ppustatus = self.ppustatus & 0x80;
        self.w = false;
        self.buffered_read = 0;
        self.cycle = 0;
        self.scanline = 241;
        self.vblank_lines = true;
    }

    /// PPUCTRL ($2000).
    pub fn write_ctl(&mut self, data: u8)
        ensures
            *final(self) == old(self).ctl_written(data),
    {
        self.reg = data;
        self.ppuctl = data;
        self.t = (self.t & 0x73ff) | ((data as u16 & 3) << 10u16);
    }

    /// PPUMASK ($2001).
    pub fn write_mask(&mut self, data: u8)
        ensures
            *final(self) == old(self).mask_written(data),
    {
        self.reg = data;
        self.ppumask = data;
    }

    /// PPUSTATUS ($2002): the status bits over the open-bus low bits; clears the vblank flag
    /// and the write toggle, and notes a read on the very dot vblank begins.
    pub fn read_status(&mut self) -> (r: u8)
        ensures
            r == (old(self).ppustatus & !0x1fu8) | (old(self).reg & 0x1f),
            *final(self) == (PPU {
                ppustatus: old(self).ppustatus & !FLAG_VBLANK,
                w: false,
                early_read: if old(self).scanline == 241 && old(self).cycle == 1 {
                    true
                } else {
                    old(self).early_read
                },
                ..*old(self)
            }),
    {
        let res = (self.ppustatus & !0x1fu8) | (self.reg & 0x1f);
        self.ppustatus = self.ppustatus & !FLAG_VBLANK;
        self.w = false;
        if self.scanline == 241 && self.cycle == 1 {
            self.early_read = true;
        }
        res
    }

    /// OAMADDR ($2003).
    pub fn write_oamaddr(&mut self, data: u8)
        ensures
            *final(self) == old(self).oamaddr_written(data),
    {
        self.reg = data;
        self.oamaddr = data;
    }

    /// OAMDATA write ($2004): stores at OAMADDR and moves it on.
    pub fn write_oamdata(&mut self, data: u8)
        requires
            old(self).wf(),
        ensures
            final(self).wf(),
            *final(self) == (PPU {
                reg: data,
                oam: final(self).oam,
                oamaddr: old(self).oamaddr.wrapping_add(1),
                ..*old(self)
            }),
            final(self).oam@ == old(self).oam@.update(old(self).oamaddr as int, data),
    {
        self.reg = data;
        let addr = self.oamaddr as usize;
        self.oam.set(addr, data);
        self.oamaddr = self.oamaddr.wrapping_add(1);
    }

    /// OAMDATA read ($2004).
    pub fn read_oamdata(&self) -> (r: u8)
        requires
            self.wf(),
        ensures
            r == self.oam@[self.oamaddr as int],
    {
        self.oam[self.oamaddr as usize]
    }

    /// PPUSCROLL ($2005): x scroll on the first write, y scroll on the second.
    pub fn write_scroll(&mut self, data: u8)
        ensures
            *final(self) == old(self).scroll_written(data),
            old(self).wf() ==> final(self).wf(),
    {
        proof { crate::utils::lemma_byte_fields(data); }
        self.reg = data;
        let d = data as u16;
        if !self.w {
            self.t = (self.t & 0x7fe0) | (d >> 3u16);
            self.x = data & 0x07;
            self.w = true;
        } else {
            self.t = (self.t & 0x0c1f) | ((d & 0xf8) << 2u16) | ((d & 0x07) << 12u16);
            self.w = false;
        }
    }

    /// PPUADDR ($2006): high byte on the first write, low byte (and v <- t) on the second.
    pub fn write_addr(&mut self, data: u8)
        ensures
            *final(self) == old(self).addr_written(data),
    {
        self.reg = data;
        let d = data as u16;
        if !self.w {
            self.t = (self.t & 0x00ff) | ((d & 0x3f) << 8u16);
            self.w = true;
        } else {
            self.t = (self.t & 0xff00) | d;
            self.v = self.t;
            self.w = false;
        }
    }

    /// PPUDATA read ($2007): buffered below the palette, direct within it; v moves on.
    pub fn read_data(&mut self, mapper: &Mapper) -> (r: u8)
        requires
            old(self).wf(),
            mapper.wf(),
        ensures
            final(self).wf(),
            old(self).v % 0x4000 < 0x3f00 ==> r == old(self).buffered_read
                && final(self).buffered_read == old(self).mem.spec_read(*mapper, old(self).v),
            old(self).v % 0x4000 >= 0x3f00 ==> r == old(self).mem.spec_read(*mapper, old(self).v)
                && final(self).buffered_read == old(self).mem.spec_read(
                *mapper, (old(self).v - 0x1000) as u16),
            *final(self) == (PPU {
                v: old(self).v.wrapping_add(vram_step(old(self).ppuctl)),
                buffered_read: final(self).buffered_read,
                ..*old(self)
            }),
    {
        let data = self.mem.read(mapper, self.v);
        let res = if self.v % 0x4000 < 0x3f00 {
            let prev = self.buffered_read;
            self.buffered_read = data;
            prev
        } else {
            self.buffered_read = self.mem.read(mapper, self.v - 0x1000);
            data
        };
        let step: u16 = if self.get_vram_inc() == 0 { 1 } else { 32 };
        self.v = self.v.wrapping_add(step);
        res
    }

    /// PPUDATA write ($2007); v moves on.
    pub fn write_data(&mut self, mapper: &mut Mapper, data: u8)
        requires
            old(self).wf(),
            old(mapper).wf(),
        ensures
            final(self).wf(),
            final(mapper).wf(),
            final(mapper).mirror() == old(mapper).mirror(),
            forall|a: u16|
                #[trigger] final(self).mem.spec_read(*final(mapper), a) == if a % 0x4000
                    >= 0x2000 && old(self).v % 0x4000 >= 0x2000 && alias(
                    *old(mapper), a, old(self).v) {
                    data
                } else if a % 0x4000 >= 0x2000 && old(self).v % 0x4000 >= 0x2000 {
                    old(self).mem.spec_read(*old(mapper), a)
                } else {
                    final(self).mem.spec_read(*final(mapper), a)
                },
            *final(self) == (PPU {
                reg: data,
                v: old(self).v.wrapping_add(vram_step(old(self).ppuctl)),
                mem: final(self).mem,
                ..*old(self)
            }),
    {
        self.reg = data;
        self.mem.write(mapper, self.v, data);
        let step: u16 = if self.get_vram_inc() == 0 { 1 } else { 32 };
        self.v = self.v.wrapping_add(step);
    }

    pub fn get_spritesize(&self) -> (r: u8)
        ensures
            r == (self.ppuctl >> 5) & 1,
    {
        (self.ppuctl >> 5) & 1
    }

    pub fn get_flag_nmi(&self) -> (r: bool)
        ensures
            r == self.nmi_enabled(),
    {
        (self.ppuctl >> 7) == 1
    }

    pub fn get_vram_inc(&self) -> (r: u8)
        ensures
            r == (self.ppuctl >> 2) & 1,
    {
        (self.ppuctl >> 2) & 1
    }

    pub fn get_show_leftmost_bg(&self) -> (r: bool)
        ensures
            r == ((self.ppumask >> 1) & 1 == 1),
    {
        (self.ppumask >> 1) & 1 == 1
    }

    pub fn get_show_leftmost_sp(&self) -> (r: bool)
        ensures
            r == ((self.ppumask >> 2) & 1 == 1),
    {
        (self.ppumask >> 2) & 1 == 1
    }

    pub fn get_show_bg(&self) -> (r: bool)
        ensures
            r == ((self.ppumask >> 3) & 1 == 1),
    {
        (self.ppumask >> 3) & 1 == 1
    }

    pub fn get_show_sp(&self) -> (r: bool)
        ensures
            r == ((self.ppumask >> 4) & 1 == 1),
    {
        (self.ppumask >> 4) & 1 == 1
    }

    pub fn get_flag_vblank(&self) -> (r: bool)
        ensures
            r == self.vblank_flag(),
    {
        (self.ppustatus >> 7) & 1 == 1
    }

    /// Whether an NMI is due: the vblank flag and NMI-enable are both set.
    pub fn try_nmi(&self) -> (r: bool)
        ensures
            r == (self.vblank_flag() && self.nmi_enabled()),
    {
        self.get_flag_vblank() && self.get_flag_nmi()
    }
}

/// Whether PPU addresses `a` and `b` (both at or above 0x2000) name the same byte of
/// nametable or palette RAM.
pub open spec fn alias(mapper: Mapper, a: u16, b: u16) -> bool {
    let x = a % 0x4000;
    let y = b % 0x4000;
    if x >= 0x3f00 && y >= 0x3f00 {
        palette_index((x - 0x3f00) % 0x20) == palette_index((y - 0x3f00) % 0x20)
    } else if x < 0x3f00 && y < 0x3f00 {
        crate::memory::nt_index(mapper.mirror(), (x - 0x2000) % 0x1000) == crate::memory::nt_index(
            mapper.mirror(), (y - 0x2000) % 0x1000)
    } else {
        false
    }
}

/// Whether a sprite whose OAM y byte is `y` covers scanline `scanline` at height `h`.
pub open spec fn covers(y: u8, scanline: u16, h: u16) -> bool {
    y as u16 <= scanline && scanline < y as u16 + h
}

/// The indices (in OAM order) of the sprites among the first `n` that cover `scanline`.
pub open spec fn candidates(oam: Seq<u8>, scanline: u16, h: u16, n: int) -> Seq<u8>
    decreases n,
{
    if n <= 0 {
        Seq::empty()
    } else {
        let c = candidates(oam, scanline, h, n - 1);
        if covers(oam[4 * (n - 1)], scanline, h) {
            c.push((n - 1) as u8)
        } else {
            c
        }
    }
}

proof fn lemma_candidates_bounded(oam: Seq<u8>, scanline: u16, h: u16, n: int)
    requires
        0 <= n <= 64,
    ensures
        candidates(oam, scanline, h, n).len() <= n,
        forall|k: int|
            0 <= k < candidates(oam, scanline, h, n).len() ==> #[trigger] candidates(
                oam, scanline, h, n)[k] < n,
    decreases n,
{
    if n > 0 {
        lemma_candidates_bounded(oam, scanline, h, n - 1);
    }
}

impl PPU {
    fn fetch_nametable_byte(&mut self, mapper: &Mapper)
        requires
            old(self).wf(),
            mapper.wf(),
        ensures
            *final(self) == (PPU { bg_nt: final(self).bg_nt, ..*old(self) }),
    {
        let mt = mapper.get_mirror_type();
        let v = self.v;
        let a = v & 0x0fff;
        assert(a < 0x1000) by (bit_vector) requires a == v & 0x0fff;
        self.bg_nt = self.mem.read_nametable(mt, a);
    }

    fn fetch_attrtable_byte(&mut self, mapper: &Mapper)
        requires
            old(self).wf(),
            mapper.wf(),
        ensures
            *final(self) == (PPU { bg_attr: final(self).bg_attr, ..*old(self) }),
            final(self).bg_attr < 4,
    {
        let v = self.v;
        let a = 0x03c0 | (v & 0x0c00) | ((v >> 4u16) & 0x38) | ((v >> 2u16) & 0x07);
        assert(a < 0x1000) by (bit_vector)
            requires a == 0x03c0 | (v & 0x0c00) | ((v >> 4u16) & 0x38) | ((v >> 2u16) & 0x07);
        let mt = mapper.get_mirror_type();
        let b = self.mem.read_nametable(mt, a);
        let sh16 = (v & 2) | ((v & 0x40) >> 4u16);
        assert(sh16 < 8) by (bit_vector) requires sh16 == (v & 2) | ((v & 0x40) >> 4u16);
        let sh = sh16 as u8;
        self.bg_attr = (b >> sh) & 3;
        let r = self.bg_attr;
        assert(r < 4) by (bit_vector) requires r == (b >> sh) & 3;
    }

    /// The pattern-table address of the current background tile row, plane `plane` (0 or 8).
    fn bg_pattern_addr(&self, plane: u16) -> (r: u16)
        requires
            plane == 0 || plane == 8,
        ensures
            r == ((self.ppuctl as u16 & 0x10) << 8u16) | ((self.bg_nt as u16) << 4u16) | ((self.v
                >> 12u16) & 7) | plane,
            r < 0x2000,
    {
        let c = self.ppuctl as u16;
        let n = self.bg_nt as u16;
        let v = self.v;
        let r = ((c & 0x10) << 8u16) | (n << 4u16) | ((v >> 12u16) & 7) | plane;
        assert(r < 0x2000) by (bit_vector)
            requires
                c < 0x100,
                n < 0x100,
                plane == 0 || plane == 8,
                r == ((c & 0x10) << 8u16) | (n << 4u16) | ((v >> 12u16) & 7) | plane,
        ;
        r
    }

    fn fetch_low_bgtile_byte(&mut self, mapper: &Mapper)
        requires
            old(self).wf(),
            mapper.wf(),
        ensures
            *final(self) == (PPU { bg_bit_low: final(self).bg_bit_low, ..*old(self) }),
            final(self).bg_bit_low == mapper.spec_read(old(self).bg_pattern_addr_spec(0)),
    {
        let a = self.bg_pattern_addr(0);
        self.bg_bit_low = self.mem.read_mapper(mapper, a);
    }

    fn fetch_high_bgtile_byte(&mut self, mapper: &Mapper)
        requires
            old(self).wf(),
            mapper.wf(),
        ensures
            *final(self) == (PPU { bg_bit_high: final(self).bg_bit_high, ..*old(self) }),
            final(self).bg_bit_high == mapper.spec_read(old(self).bg_pattern_addr_spec(8)),
    {
        let a = self.bg_pattern_addr(8);
        self.bg_bit_high = self.mem.read_mapper(mapper, a);
    }

    pub open spec fn bg_pattern_addr_spec(&self, plane: u16) -> u16 {
        ((self.ppuctl as u16 & 0x10) << 8u16) | ((self.bg_nt as u16) << 4u16) | ((self.v >> 12u16)
            & 7) | plane
    }

    /// Appends the fetched tile row behind the eight pixels now queued.
    fn load_bgtile(&mut self)
        ensures
            *final(self) == (PPU {
                bg_pixel: old(self).bg_pixel | (tile_row(
                    old(self).bg_attr,
                    old(self).bg_bit_low,
                    old(self).bg_bit_high,
                ) << 32u64),
                ..*old(self)
            }),
    {
        let t = load_tile_row(self.bg_attr, self.bg_bit_low, self.bg_bit_high);
        self.bg_pixel = self.bg_pixel | (t << 32u64);
    }

    fn shift_bgtile(&mut self)
        ensures
            *final(self) == (PPU { bg_pixel: old(self).bg_pixel >> 4u64, ..*old(self) }),
    {
        self.bg_pixel = self.bg_pixel >> 4u64;
    }

    /// Coarse-x increment, switching the horizontal nametable after column 31.
    fn wrapping_inc_cx(&mut self)
        ensures
            *final(self) == (PPU {
                v: if old(self).v & 0x001f == 31 {
                    (old(self).v & !0x001fu16) ^ 0x0400
                } else {
                    old(self).v.wrapping_add(1)
                },
                ..*old(self)
            }),
    {
        if self.v & 0x001f == 31 {
            self.v = (self.v & !0x001fu16) ^ 0x0400;
        } else {
            self.v = self.v.wrapping_add(1);
        }
    }

    /// Fine-y increment, carrying into coarse y; row 29 wraps and switches the vertical
    /// nametable, rows 30 and 31 wrap without switching.
    fn wrapping_inc_y(&mut self)
        ensures
            *final(self) == (PPU { v: final(self).v, ..*old(self) }),
            old(self).v & 0x7000 != 0x7000 ==> final(self).v == old(self).v.wrapping_add(0x1000),
            old(self).v & 0x7000 == 0x7000 ==> {
                let v0 = old(self).v & !0x7000u16;
                let cy = (v0 & 0x03e0) >> 5u16;
                &&& cy == 29 ==> final(self).v == ((v0 ^ 0x0800) & !0x03e0u16)
                &&& cy == 31 ==> final(self).v == (v0 & !0x03e0u16)
                &&& cy != 29 && cy != 31 ==> final(self).v == (v0 & !0x03e0u16) | (((cy + 1) as u16)
                    << 5u16)
            },
    {
        if (self.v & 0x7000) != 0x7000 {
            self.v = self.v.wrapping_add(0x1000);
        } else {
            self.v = self.v & !0x7000u16;
            let cy = (self.v & 0x03e0) >> 5u16;
            let v1 = self.v;
            assert(cy < 32) by (bit_vector) requires cy == (v1 & 0x03e0) >> 5u16;
            let y: u16 = if cy == 29 {
                self.v = self.v ^ 0x0800;
                0
            } else if cy == 31 {
                0
            } else {
                cy + 1
            };
            self.v = (self.v & !0x03e0u16) | (y << 5u16);
            proof {
                let v0 = old(self).v & !0x7000u16;
                assert(((v0 ^ 0x0800) & 0x03e0) == (v0 & 0x03e0)) by (bit_vector);
                assert((((v0 ^ 0x0800) & !0x03e0u16) | (0u16 << 5u16)) == ((v0 ^ 0x0800) & !0x03e0u16)) by (bit_vector);
                assert(((v0 & !0x03e0u16) | (0u16 << 5u16)) == (v0 & !0x03e0u16)) by (bit_vector);
            }
        }
    }

    /// Reloads the horizontal bits of v from t.
    fn reset_cx(&mut self)
        ensures
            *final(self) == (PPU {
                v: (old(self).v & !0x041fu16) | (old(self).t & 0x041f),
                ..*old(self)
            }),
    {
        self.v = (self.v & !0x041fu16) | (self.t & 0x041f);
    }

    /// Reloads the vertical bits of v from t.
    fn reset_y(&mut self)
        ensures
            *final(self) == (PPU {
                v: (old(self).v & !0x7be0u16) | (old(self).t & 0x7be0),
                ..*old(self)
            }),
    {
        self.v = (self.v & !0x7be0u16) | (self.t & 0x7be0);
    }

    fn clear_sprite(&mut self)
        requires
            old(self).wf(),
        ensures
            final(self).wf(),
            *final(self) == (PPU { oam2: final(self).oam2, ..*old(self) }),
            forall|i: int| 0 <= i < 8 ==> final(self).oam2@[i] == 0xff,
    {
        let mut i: usize = 0;
        while i < 8
            invariant
                0 <= i <= 8,
                self.oam2@.len() == 8,
                forall|k: int| 0 <= k < i ==> self.oam2@[k] == 0xff,
                *self == (PPU { oam2: self.oam2, ..*old(self) }),
            decreases 8 - i,
        {
            self.oam2.set(i, 0xff);
            i = i + 1;
        }
    }

    pub open spec fn sprite_height(&self) -> u16 {
        if (self.ppuctl >> 5) & 1 == 0 {
            8
        } else {
            16
        }
    }

    /// Sprite evaluation: the first eight sprites (in OAM order) covering the current scanline
    /// go to secondary OAM; past eight, the overflow flag follows the hardware's buggy scan.
    fn eval_sprite(&mut self)
        requires
            old(self).wf(),
            forall|i: int| 0 <= i < 8 ==> old(self).oam2@[i] == 0xff,
        ensures
            final(self).wf(),
            *final(self) == (PPU {
                oam2: final(self).oam2,
                ppustatus: final(self).ppustatus,
                ..*old(self)
            }),
            ({
                let c = candidates(old(self).oam@, old(self).scanline, old(self).sprite_height(), 64);
                let k = if c.len() < 8 { c.len() } else { 8 };
                &&& forall|i: int| 0 <= i < k ==> final(self).oam2@[i] == c[i]
                &&& forall|i: int| k <= i < 8 ==> final(self).oam2@[i] == 0xff
                &&& c.len() < 8 ==> final(self).ppustatus == old(self).ppustatus
            }),
            final(self).ppustatus == old(self).ppustatus || final(self).ppustatus
                == old(self).ppustatus | FLAG_OVERFLOW,
    {
        let scanline = self.scanline;
        let h: u16 = if self.get_spritesize() == 0 { 8 } else { 16 };
        let ghost oam = self.oam@;
        let mut nidx: usize = 0;
        let mut i: usize = 0;
        while i < 64 && nidx < 8
            invariant
                self.wf(),
                self.oam@ == oam,
                *self == (PPU { oam2: self.oam2, ..*old(self) }),
                0 <= i <= 64,
                nidx <= 8,
                candidates(oam, scanline, h, i as int).len() == nidx,
                forall|k: int|
                    0 <= k < nidx ==> self.oam2@[k] == candidates(oam, scanline, h, i as int)[k],
                forall|k: int| nidx <= k < 8 ==> self.oam2@[k] == 0xff,
                h == old(self).sprite_height(),
                scanline == old(self).scanline,
            decreases 64 - i,
        {
            let y = self.oam[4 * i] as u16;
            if y <= scanline && scanline < y + h {
                self.oam2.set(nidx, i as u8);
                nidx = nidx + 1;
            }
            i = i + 1;
        }
        proof {
            lemma_candidates_prefix(oam, scanline, h, i as int, 64);
            lemma_candidates_bounded(oam, scanline, h, i as int);
        }
        if nidx == 8 {
            let mut n: usize = i;
            let mut m: usize = 0;
            let mut status = self.ppustatus;
            while n < 64
                invariant
                    self.wf(),
                    0 <= n <= 64,
                    m < 4,
                    h == 8 || h == 16,
                    status == old(self).ppustatus || status == old(self).ppustatus | FLAG_OVERFLOW,
                decreases 64 - n,
            {
                let y = self.oam[4 * n + m] as u16;
                if y <= scanline && scanline < y + h {
                    status = status | FLAG_OVERFLOW;
                    proof {
                        let o = old(self).ppustatus;
                        assert((o | 0x20u8) | 0x20u8 == o | 0x20u8) by (bit_vector);
                    }
                } else {
                    m = (m + 1) % 4;
                }
                n = n + 1;
            }
            self.ppustatus = status;
        }
    }
}

/// The candidates among the first `m` sprites are a prefix of those among the first `n`.
proof fn lemma_candidates_prefix(oam: Seq<u8>, scanline: u16, h: u16, m: int, n: int)
    requires
        0 <= m <= n,
    ensures
        candidates(oam, scanline, h, m).len() <= candidates(oam, scanline, h, n).len(),
        forall|k: int|
            0 <= k < candidates(oam, scanline, h, m).len() ==> #[trigger] candidates(
                oam, scanline, h, n)[k] == candidates(oam, scanline, h, m)[k],
    decreases n - m,
{
    if m < n {
        lemma_candidates_prefix(oam, scanline, h, m, n - 1);
    }
}


/// Past the first empty secondary-OAM slot no sprite changes the cache.
proof fn lemma_first_px_stable(p: PPU, mapper: Mapper, k: int, n: int, x: int)
    requires
        1 <= k <= n,
        !p.active(k - 1),
    ensures
        p.first_px(mapper, n, x) == p.first_px(mapper, k, x),
    decreases n - k,
{
    if n > k {
        lemma_first_px_stable(p, mapper, k, n - 1, x);
        assert(!p.active(n - 1));
    }
}

/// A right shift that continues one step further.
proof fn lemma_shift_step(x: u8, k: u8)
    requires
        k < 7,
    ensures
        (x >> k) >> 1u8 == x >> ((k + 1) as u8),
{
    assert((x >> k) >> 1u8 == x >> ((k + 1) as u8)) by (bit_vector) requires k < 7;
}

impl PPU {
    /// The pattern address of sprite `j`'s row on the current scanline (low plane; the high
    /// plane is 8 above), with vertical flip and the 8x16 rules applied.
    pub open spec fn sprite_row(&self, j: int) -> u16 {
        let sy = self.oam@[4 * j];
        let tile = self.oam@[4 * j + 1];
        let attr = self.oam@[4 * j + 2];
        let vflip = (attr & 0x80) == 0x80;
        let y0 = self.scanline.wrapping_sub(sy as u16) as u8;
        if (self.ppuctl >> 5u8) & 1 == 0 {
            let y = if vflip { 7u8.wrapping_sub(y0) } else { y0 };
            ((self.ppuctl as u16 & 0x08) << 9u16) | ((tile as u16) << 4u16) | y as u16
        } else {
            let y = if vflip { 15u8.wrapping_sub(y0) } else { y0 };
            ((tile as u16 & 1) << 12u16) | ((((tile & !1u8) | (y >> 3u8)) as u16) << 4u16) | (y & 0x7) as u16
        }
    }

    /// The two pattern bytes of sprite `j`'s row, reversed when it is flipped horizontally.
    pub open spec fn sprite_pattern(&self, mapper: Mapper, j: int) -> (u8, u8) {
        let row = self.sprite_row(j);
        let lo = mapper.spec_read(row & 0x1ff7);
        let hi = mapper.spec_read((row | 0x8) & 0x1fff);
        if (self.oam@[4 * j + 2] & 0x40) == 0x40 {
            (reversed(lo), reversed(hi))
        } else {
            (lo, hi)
        }
    }

    /// Sprite `j`'s cache entry at column `x`: sprite-zero flag, priority and the 4-bit palette
    /// index when its pixel there is opaque, else SP_NONE.
    pub open spec fn sprite_px(&self, mapper: Mapper, j: int, x: int) -> u16 {
        let attr = self.oam@[4 * j + 2];
        let sx = self.oam@[4 * j + 3] as int;
        let x_max = if sx + 8 < 256 { sx + 8 } else { 256 };
        if sx <= x < x_max {
            let (lo, hi) = self.sprite_pattern(mapper, j);
            let k = (x_max - 1 - x) as u8;
            let sp = (((attr & 3) << 2u8) | (((hi >> k) & 1) << 1u8) | ((lo >> k) & 1)) as u16;
            if sp & 3 != 0 {
                (if j == 0 { 0x8000u16 } else { 0u16 }) | ((((attr >> 5u8) as u16) & 1) << 8u16) | sp
            } else {
                SP_NONE
            }
        } else {
            SP_NONE
        }
    }

    /// Whether secondary OAM entries 0..k all name a sprite.
    pub open spec fn active(&self, k: int) -> bool {
        forall|i: int| 0 <= i <= k ==> self.oam2@[i] != 0xff
    }

    /// The cache entry at column `x` after the first `n` secondary-OAM sprites: the first one
    /// (before the first empty slot) whose pixel there is opaque.
    pub open spec fn first_px(&self, mapper: Mapper, n: int, x: int) -> u16
        decreases n,
    {
        if n <= 0 {
            SP_NONE
        } else {
            let prev = self.first_px(mapper, n - 1, x);
            if prev != SP_NONE || !self.active(n - 1) {
                prev
            } else {
                self.sprite_px(mapper, self.oam2@[n - 1] as int, x)
            }
        }
    }
}

impl PPU {
    /// The background code under the current dot, after the leftmost-column mask.
    pub open spec fn bg_code(&self) -> u16 {
        let x = self.cycle - 1;
        if (self.ppumask >> 3) & 1 == 1 && (x >= 8 || (self.ppumask >> 1) & 1 == 1) {
            ((self.bg_pixel >> (self.x as u64 * 4)) & 0xf) as u16
        } else {
            0
        }
    }

    /// The sprite-cache entry under the current dot, after the leftmost-column mask.
    pub open spec fn sp_entry(&self) -> u16 {
        let x = self.cycle - 1;
        if (self.ppumask >> 4) & 1 == 1 && (x >= 8 || (self.ppumask >> 2) & 1 == 1) {
            self.sp_cache@[x]
        } else {
            SP_NONE
        }
    }

    /// The 6-bit color of the pixel under the current dot.
    pub open spec fn pixel_color(&self) -> u8 {
        let (addr, _) = blend(self.bg_code(), self.sp_entry(), (self.cycle - 1) as u16);
        self.mem.palette@[palette_index(addr as int)] & 0x3f
    }

    /// Pre-rasterizes the sprites of secondary OAM into the per-x sprite cache; earlier
    /// sprites win, transparent pixels leave the entry free.
    fn fetch_sprite(&mut self, mapper: &Mapper)
        requires
            old(self).wf(),
            mapper.wf(),
        ensures
            final(self).wf(),
            *final(self) == (PPU { sp_cache: final(self).sp_cache, ..*old(self) }),
            old(self).scanline == 261 ==> final(self).sp_cache == old(self).sp_cache,
            old(self).scanline != 261 ==> forall|x: int|
                0 <= x < 256 ==> #[trigger] final(self).sp_cache@[x] == old(self).first_px(*mapper, 8, x),
    {
        if self.scanline == 261 {
            return ;
        }
        let mut i: usize = 0;
        while i < 256
            invariant
                self.wf(),
                *self == (PPU { sp_cache: self.sp_cache, ..*old(self) }),
                0 <= i <= 256,
                forall|x: int| 0 <= x < i ==> self.sp_cache@[x] == SP_NONE,
            decreases 256 - i,
        {
            self.sp_cache.set(i, SP_NONE);
            i = i + 1;
        }
        let mut k: usize = 0;
        let mut done = false;
        while k < 8 && !done
            invariant
                self.wf(),
                mapper.wf(),
                *self == (PPU { sp_cache: self.sp_cache, ..*old(self) }),
                0 <= k <= 8,
                forall|x: int| 0 <= x < 256 ==> #[trigger] self.sp_cache@[x] == old(self).first_px(*mapper, k as int, x),
                done ==> k >= 1 && !old(self).active(k - 1),
                !done ==> old(self).active(k - 1),
            decreases 8 - k,
        {
            let j = self.oam2[k];
            let ghost before = self.sp_cache@;
            if j == 0xff {
                done = true;
            } else {
                self.fetch_one_sprite(mapper, j);
            }
            k = k + 1;
            proof {
                assert forall|x: int| 0 <= x < 256 implies #[trigger] self.sp_cache@[x] == old(self).first_px(*mapper, k as int, x) by {
                    assert(old(self).first_px(*mapper, k as int, x) == {
                        let prev = old(self).first_px(*mapper, k - 1, x);
                        if prev != SP_NONE || !old(self).active(k - 1) { prev } else { old(self).sprite_px(*mapper, old(self).oam2@[k - 1] as int, x) }
                    });
                }
            }
        }
        proof {
            if done {
                assert forall|x: int| 0 <= x < 256 implies #[trigger] self.sp_cache@[x] == old(self).first_px(*mapper, 8, x) by {
                    lemma_first_px_stable(*old(self), *mapper, k as int, 8, x);
                }
            }
        }
    }

    fn fetch_one_sprite(&mut self, mapper: &Mapper, j: u8)
        requires
            old(self).wf(),
            mapper.wf(),
            j < 64,
        ensures
            final(self).wf(),
            *final(self) == (PPU { sp_cache: final(self).sp_cache, ..*old(self) }),
            forall|x: int| 0 <= x < 256 ==> #[trigger] final(self).sp_cache@[x] == if old(self).sp_cache@[x] != SP_NONE {
                old(self).sp_cache@[x]
            } else {
                old(self).sprite_px(*mapper, j as int, x)
            },
    {
        let base = j as usize * 4;
        let sy = self.oam[base];
        let tile = self.oam[base + 1];
        let attr = self.oam[base + 2];
        let sx = self.oam[base + 3] as usize;
        let vflip = (attr & 0x80) == 0x80;
        let y0 = self.scanline.wrapping_sub(sy as u16) as u8;
        let (ptable, tidx, y): (u16, u8, u8) = if self.get_spritesize() == 0 {
            let y = if vflip { 7u8.wrapping_sub(y0) } else { y0 };
            ((self.ppuctl as u16 & 0x08) << 9u16, tile, y)
        } else {
            let y = if vflip { 15u8.wrapping_sub(y0) } else { y0 };
            ((tile as u16 & 1) << 12u16, (tile & !1u8) | (y >> 3u8), y & 0x7)
        };
        let row = ptable | ((tidx as u16) << 4u16) | y as u16;
        let lo_addr = row & 0x1ff7;
        let hi_addr = (row | 0x8) & 0x1fff;
        assert(lo_addr < 0x2000) by (bit_vector) requires lo_addr == row & 0x1ff7;
        assert(hi_addr < 0x2000) by (bit_vector) requires hi_addr == (row | 0x8) & 0x1fff;
        let mut low = self.mem.read_mapper(mapper, lo_addr);
        let mut high = self.mem.read_mapper(mapper, hi_addr);
        if (attr & 0x40) == 0x40 {
            low = reverse_byte(low);
            high = reverse_byte(high);
        }
        assert(row == old(self).sprite_row(j as int));
        let ghost lo0 = low;
        let ghost hi0 = high;
        assert((lo0, hi0) == old(self).sprite_pattern(*mapper, j as int));
        let pal = attr & 3;
        let zero: u16 = if j == 0 { 0x8000 } else { 0 };
        let pri: u16 = ((attr >> 5u8) as u16 & 1) << 8u16;
        let x_max: usize = if sx + 8 < 256 { sx + 8 } else { 256 };
        let mut p: usize = x_max;
        assert(lo0 >> 0u8 == lo0 && hi0 >> 0u8 == hi0) by (bit_vector);
        while p > sx
            invariant
                self.wf(),
                *self == (PPU { sp_cache: self.sp_cache, ..*old(self) }),
                sx <= p <= x_max <= 256,
                x_max == if sx + 8 < 256 { sx + 8 } else { 256 },
                sx == old(self).oam@[4 * j + 3] as int,
                attr == old(self).oam@[4 * j + 2],
                pal == attr & 3,
                zero == (if j == 0 { 0x8000u16 } else { 0u16 }),
                pri == (((attr >> 5u8) as u16) & 1) << 8u16,
                (lo0, hi0) == old(self).sprite_pattern(*mapper, j as int),
                p > sx ==> low == lo0 >> ((x_max - p) as u8) && high == hi0 >> ((x_max - p) as u8),
                forall|q: int| 0 <= q < 256 ==> #[trigger] self.sp_cache@[q] == if p <= q < x_max && old(self).sp_cache@[q] == SP_NONE {
                    old(self).sprite_px(*mapper, j as int, q)
                } else {
                    old(self).sp_cache@[q]
                },
            decreases p,
        {
            p = p - 1;
            if self.sp_cache[p] == SP_NONE {
                let sp = ((pal << 2u8) | ((high & 1) << 1u8) | (low & 1)) as u16;
                if sp & 3 != 0 {
                    self.sp_cache.set(p, zero | pri | sp);
                }
            }
            proof {
                let k = (x_max - 1 - p) as u8;
                if p > sx {
                    lemma_shift_step(lo0, k);
                    lemma_shift_step(hi0, k);
                }
            }
            high = high >> 1u8;
            low = low >> 1u8;
        }
    }

    /// Draws the pixel under the current dot and records a sprite-zero hit.
    fn render_pixel<S: Screen>(&mut self, scr: &mut S)
        requires
            old(self).wf(),
            1 <= old(self).cycle <= 256,
            old(self).scanline < 240,
        ensures
            final(self).wf(),
            *final(self) == (PPU {
                ppustatus: if blend(
                    old(self).bg_code(),
                    old(self).sp_entry(),
                    (old(self).cycle - 1) as u16,
                ).1 {
                    old(self).ppustatus | FLAG_SPRITE_ZERO
                } else {
                    old(self).ppustatus
                },
                ..*old(self)
            }),
    {
        let (px, py, color, hit) = self.pixel_out();
        if hit {
            self.ppustatus = self.ppustatus | FLAG_SPRITE_ZERO;
        }
        scr.put(px, py, color);
    }

    /// The pixel the current dot draws, as handed to the screen: column, scanline and 6-bit
    /// color; and whether it is a sprite-zero hit.
    pub fn pixel_out(&self) -> (r: (u8, u8, u8, bool))
        requires
            self.wf(),
            1 <= self.cycle <= 256,
            self.scanline < 240,
        ensures
            r.0 == (self.cycle - 1) as u8,
            r.1 == self.scanline as u8,
            r.2 == self.pixel_color(),
            r.3 == blend(self.bg_code(), self.sp_entry(), (self.cycle - 1) as u16).1,
    {
        let x = self.cycle - 1;
        let bg: u16 = if self.get_show_bg() && (x >= 8 || self.get_show_leftmost_bg()) {
            let sh = self.x as u64 * 4;
            let px = self.bg_pixel;
            let b = (px >> sh) & 0xf;
            assert(b < 0x10) by (bit_vector) requires b == (px >> sh) & 0xf;
            b as u16
        } else {
            0
        };
        let sp_entry = if self.get_show_sp() && (x >= 8 || self.get_show_leftmost_sp()) {
            self.sp_cache[x as usize]
        } else {
            SP_NONE
        };
        let (addr, hit) = blend_pixel(bg, sp_entry, x);
        let color = self.mem.read_palette(addr) & 0x3f;
        (x as u8, self.scanline as u8, color, hit)
    }
}

impl PPU {
    /// One background fetch step of a visible or pre-render scanline, at dots 1..256 and
    /// 321..336, and the sprite work that shares those dots.
    fn fetch_dot<S: Screen>(&mut self, mapper: &Mapper, scr: &mut S)
        requires
            old(self).wf(),
            mapper.wf(),
            (old(self).scanline < 240 && 1 <= old(self).cycle <= 256) || (321 <= old(self).cycle
                <= 336 && (old(self).scanline < 240 || old(self).scanline == 261)),
        ensures
            final(self).wf(),
            final(self).scanline == old(self).scanline,
            final(self).cycle == old(self).cycle,
            final(self).ppuctl == old(self).ppuctl,
            final(self).ppumask == old(self).ppumask,
            final(self).f == old(self).f,
            final(self).early_read == old(self).early_read,
            final(self).ppustatus & FLAG_VBLANK == old(self).ppustatus & FLAG_VBLANK,
    {
        let cycle = self.cycle;
        let m = cycle % 8;
        if m == 1 {
            self.load_bgtile();
            self.fetch_nametable_byte(mapper);
        } else if m == 3 {
            self.fetch_attrtable_byte(mapper);
        } else if m == 5 {
            self.fetch_low_bgtile_byte(mapper);
        } else if m == 7 {
            self.fetch_high_bgtile_byte(mapper);
        } else if m == 0 {
            self.wrapping_inc_cx();
        }
        if cycle == 1 {
            self.clear_sprite();
        } else if cycle == 65 {
            if self.scanline != 261 {
                self.eval_sprite_checked();
            }
        } else if cycle == 256 {
            self.wrapping_inc_y();
        }
        let st = self.ppustatus;
        if 1 <= cycle && cycle <= 256 && self.scanline < 240 {
            self.render_pixel(scr);
            assert((st | 0x40u8) & 0x80u8 == st & 0x80u8) by (bit_vector);
        }
        self.shift_bgtile();
    }

    /// Sprite evaluation, after clearing secondary OAM where a previous evaluation left it
    /// filled (the hardware clears it at dot 1 of every rendered scanline).
    fn eval_sprite_checked(&mut self)
        requires
            old(self).wf(),
        ensures
            final(self).wf(),
            *final(self) == (PPU {
                oam2: final(self).oam2,
                ppustatus: final(self).ppustatus,
                ..*old(self)
            }),
            final(self).ppustatus == old(self).ppustatus || final(self).ppustatus
                == old(self).ppustatus | FLAG_OVERFLOW,
            final(self).ppustatus & FLAG_VBLANK == old(self).ppustatus & FLAG_VBLANK,
    {
        let st = self.ppustatus;
        self.clear_sprite();
        self.eval_sprite();
        assert((st | 0x20u8) & 0x80u8 == st & 0x80u8) by (bit_vector);
    }

    /// Advances one dot; returns whether an NMI should be raised (vblank begins with NMI
    /// enabled).
    pub fn tick<S: Screen>(&mut self, mapper: &Mapper, scr: &mut S) -> (nmi: bool)
        requires
            old(self).wf(),
            mapper.wf(),
        ensures
            final(self).wf(),
            (final(self).scanline, final(self).cycle) == next_pos(
                old(self).scanline,
                old(self).cycle,
                old(self).rendering(),
                old(self).f,
            ),
            final(self).f == if old(self).scanline == 261 && old(self).cycle == 340 {
                !old(self).f
            } else {
                old(self).f
            },
            final(self).ppuctl == old(self).ppuctl,
            final(self).ppumask == old(self).ppumask,
            old(self).scanline == 241 && old(self).cycle == 1 ==> {
                &&& final(self).ppustatus == if old(self).early_read {
                    old(self).ppustatus
                } else {
                    old(self).ppustatus | FLAG_VBLANK
                }
                &&& !final(self).early_read
                &&& nmi == (final(self).vblank_flag() && old(self).nmi_enabled())
            },
            old(self).scanline == 261 && old(self).cycle == 1 ==> final(self).ppustatus
                == old(self).ppustatus & !(FLAG_VBLANK | FLAG_SPRITE_ZERO | FLAG_OVERFLOW),
            !(old(self).scanline == 241 && old(self).cycle == 1) ==> !nmi,
            !(old(self).scanline == 241 && old(self).cycle == 1) && !(old(self).scanline == 261
                && old(self).cycle == 1) ==> final(self).ppustatus & FLAG_VBLANK
                == old(self).ppustatus & FLAG_VBLANK && final(self).early_read
                == old(self).early_read,
    {
        let cycle = self.cycle;
        let scanline = self.scanline;
        if cycle == 0 {
            self.cycle = 1;
            if scanline == 240 {
                self.vblank_lines = true;
            } else if scanline == 261 {
                self.vblank_lines = false;
            }
            return false;
        }
        let rendering = self.get_show_bg() || self.get_show_sp();
        let visible_line = scanline < 240;
        let pre_line = scanline == 261;
        if (pre_line || visible_line) && rendering {
            if pre_line && 279 < cycle && cycle < 305 {
                self.reset_y();
            } else {
                let visible_cycle = 0 < cycle && cycle < 257;
                let prefetch_cycle = 320 < cycle && cycle < 337;
                if (visible_line && (visible_cycle || prefetch_cycle)) || (pre_line
                    && prefetch_cycle) {
                    self.fetch_dot(mapper, scr);
                } else if cycle == 257 {
                    self.reset_cx();
                    self.fetch_sprite(mapper);
                    self.cycle = 258;
                    return false;
                }
                if pre_line && cycle == 338 && self.f {
                    self.cycle = 340;
                    return false;
                }
            }
        } else {
            if !rendering {
                self.bg_pixel = 0;
            }
            if scanline == 241 && cycle == 1 {
                if !self.early_read {
                    self.ppustatus = self.ppustatus | FLAG_VBLANK;
                }
                self.early_read = false;
                self.vblank = true;
                scr.render();
                scr.frame();
                self.cycle = 2;
                return self.try_nmi();
            }
        }
        if pre_line && cycle == 1 {
            self.vblank = false;
            self.ppustatus = self.ppustatus & !(FLAG_VBLANK | FLAG_SPRITE_ZERO | FLAG_OVERFLOW);
            self.bg_pixel = 0;
            self.cycle = 2;
            return false;
        }
        if self.cycle < 340 {
            self.cycle = self.cycle + 1;
        } else {
            self.cycle = 0;
            if self.scanline < 261 {
                self.scanline = self.scanline + 1;
            } else {
                self.scanline = 0;
                self.f = !self.f;
            }
        }
        false
    }
}

/// Writing PPUCTRL, PPUMASK or OAMADDR twice with one value leaves the PPU as writing it once;
/// and writing PPUCTRL or PPUMASK with the value it holds, once the open-bus latch and (for
/// PPUCTRL) the nametable bits of t already agree, changes nothing.
pub proof fn lemma_ppu_write_idempotent(p: PPU, data: u8)
    ensures
        p.ctl_written(data).ctl_written(data) == p.ctl_written(data),
        p.mask_written(data).mask_written(data) == p.mask_written(data),
        p.oamaddr_written(data).oamaddr_written(data) == p.oamaddr_written(data),
        p.reg == p.ppumask ==> p.mask_written(p.ppumask) == p,
        p.reg == p.ppuctl && (p.t >> 10u16) & 3 == (p.ppuctl & 3) as u16 && p.t < 0x8000
            ==> p.ctl_written(p.ppuctl) == p,
{
    let t = p.t;
    let d = data as u16;
    let c = p.ppuctl;
    assert((((t & 0x73ff) | ((d & 3) << 10u16)) & 0x73ff) | ((d & 3) << 10u16) == (t & 0x73ff) | ((
    d & 3) << 10u16) && ((t >> 10u16) & 3 == (c & 3) as u16 && t < 0x8000 ==> (t & 0x73ff) | (((c
        as u16) & 3) << 10u16) == t)) by (bit_vector);
}


impl PPU {
    pub fn check_wf(&self) -> (r: bool)
        ensures
            r == self.wf(),
    {
        if !(self.mem.check_wf() && self.oam.len() == 256 && self.oam2.len() == 8
            && self.sp_cache.len() == 256 && self.scanline <= 261 && self.cycle <= 340 && self.x < 8) {
            return false;
        }
        let mut i: usize = 0;
        while i < 8
            invariant
                0 <= i <= 8,
                self.oam2@.len() == 8,
                forall|k: int| 0 <= k < i ==> self.oam2@[k] < 64 || self.oam2@[k] == 0xff,
            decreases 8 - i,
        {
            if !(self.oam2[i] < 64 || self.oam2[i] == 0xff) {
                return false;
            }
            i = i + 1;
        }
        true
    }
}

pub const PPU_STATE_LEN: usize = 2888;

impl PPU {
    pub open spec fn encode_0(&self) -> Seq<u8> {
        enc_u16(self.scanline)
            + enc_u16(self.cycle)
            + seq![self.ppuctl]
            + seq![self.ppumask]
    }

    pub open spec fn decodes_0(&self, b: Seq<u8>) -> bool {
        &&& b.len() == 6
        &&& self.scanline == dec_u16(b, 0)
        &&& self.cycle == dec_u16(b, 2)
        &&& self.ppuctl == b[4]
        &&& self.ppumask == b[5]
    }

    pub open spec fn encode_1(&self) -> Seq<u8> {
        seq![self.ppustatus]
            + seq![self.oamaddr]
            + seq![self.reg]
            + seq![self.x]
    }

    pub open spec fn decodes_1(&self, b: Seq<u8>) -> bool {
        &&& b.len() == 4
        &&& self.ppustatus == b[0]
        &&& self.oamaddr == b[1]
        &&& self.reg == b[2]
        &&& self.x == b[3]
    }

    pub open spec fn encode_2(&self) -> Seq<u8> {
        enc_u16(self.v)
            + enc_u16(self.t)
            + enc_bool(self.w)
            + enc_bool(self.f)
    }

    pub open spec fn decodes_2(&self, b: Seq<u8>) -> bool {
        &&& b.len() == 6
        &&& self.v == dec_u16(b, 0)
        &&& self.t == dec_u16(b, 2)
        &&& self.w == dec_bool(b, 4)
        &&& self.f == dec_bool(b, 5)
    }

    pub open spec fn encode_3(&self) -> Seq<u8> {
        enc_u64(self.bg_pixel)
            + seq![self.bg_nt]
            + seq![self.bg_attr]
            + seq![self.bg_bit_low]
    }

    pub open spec fn decodes_3(&self, b: Seq<u8>) -> bool {
        &&& b.len() == 11
        &&& self.bg_pixel == dec_u64(b, 0)
        &&& self.bg_nt == b[8]
        &&& self.bg_attr == b[9]
        &&& self.bg_bit_low == b[10]
    }

    pub open spec fn encode_4(&self) -> Seq<u8> {
        seq![self.bg_bit_high]
            + self.oam@
            + self.oam2@
            + enc_words(self.sp_cache@)
    }

    pub open spec fn decodes_4(&self, b: Seq<u8>) -> bool {
        &&& b.len() == 777
        &&& self.bg_bit_high == b[0]
        &&& self.oam@ == b.subrange(1, 257)
        &&& self.oam2@ == b.subrange(257, 265)
        &&& self.sp_cache@ == dec_words(b.subrange(265, 777))
    }

    pub open spec fn encode_5(&self) -> Seq<u8> {
        enc_bool(self.vblank)
            + enc_bool(self.vblank_lines)
            + seq![self.buffered_read]
            + enc_bool(self.early_read)
    }

    pub open spec fn decodes_5(&self, b: Seq<u8>) -> bool {
        &&& b.len() == 4
        &&& self.vblank == dec_bool(b, 0)
        &&& self.vblank_lines == dec_bool(b, 1)
        &&& self.buffered_read == b[2]
        &&& self.early_read == dec_bool(b, 3)
    }

    pub open spec fn encode_6(&self) -> Seq<u8> {
        self.mem.encode()
    }

    pub open spec fn decodes_6(&self, b: Seq<u8>) -> bool {
        &&& b.len() == 2080
        &&& self.mem.decodes(b.subrange(0, 2080))
    }

    /// The saved form of this state, field by field.
    #[verifier::opaque]
    pub open spec fn encode(&self) -> Seq<u8> {
        self.encode_0() + self.encode_1() + self.encode_2() + self.encode_3() + self.encode_4() + self.encode_5() + self.encode_6()
    }

    /// Whether this state is the one the saved bytes `b` describe.
    #[verifier::opaque]
    pub open spec fn decodes(&self, b: Seq<u8>) -> bool {
        &&& b.len() == 2888
        &&& self.decodes_0(b.subrange(0, 6))
        &&& self.decodes_1(b.subrange(6, 10))
        &&& self.decodes_2(b.subrange(10, 16))
        &&& self.decodes_3(b.subrange(16, 27))
        &&& self.decodes_4(b.subrange(27, 804))
        &&& self.decodes_5(b.subrange(804, 808))
        &&& self.decodes_6(b.subrange(808, 2888))
    }

    /// Equal in every saved field.
    #[verifier::opaque]
    pub open spec fn same_as(&self, o: Self) -> bool {
        &&& self.scanline == o.scanline
        &&& self.cycle == o.cycle
        &&& self.ppuctl == o.ppuctl
        &&& self.ppumask == o.ppumask
        &&& self.ppustatus == o.ppustatus
        &&& self.oamaddr == o.oamaddr
        &&& self.reg == o.reg
        &&& self.x == o.x
        &&& self.v == o.v
        &&& self.t == o.t
        &&& self.w == o.w
        &&& self.f == o.f
        &&& self.bg_pixel == o.bg_pixel
        &&& self.bg_nt == o.bg_nt
        &&& self.bg_attr == o.bg_attr
        &&& self.bg_bit_low == o.bg_bit_low
        &&& self.bg_bit_high == o.bg_bit_high
        &&& self.oam@ == o.oam@
        &&& self.oam2@ == o.oam2@
        &&& self.sp_cache@ == o.sp_cache@
        &&& self.vblank == o.vblank
        &&& self.vblank_lines == o.vblank_lines
        &&& self.buffered_read == o.buffered_read
        &&& self.early_read == o.early_read
        &&& self.mem.same_as(o.mem)
    }

    fn save_0(&self, out: &mut Vec<u8>)
        requires
            self.wf(),
        ensures
            final(out)@ == old(out)@ + self.encode_0(),
    {
        put_u16(out, self.scanline);
        put_u16(out, self.cycle);
        put_u8(out, self.ppuctl);
        put_u8(out, self.ppumask);
        assert(final(out)@ =~= old(out)@ + self.encode_0());
    }

    fn save_1(&self, out: &mut Vec<u8>)
        requires
            self.wf(),
        ensures
            final(out)@ == old(out)@ + self.encode_1(),
    {
        put_u8(out, self.ppustatus);
        put_u8(out, self.oamaddr);
        put_u8(out, self.reg);
        put_u8(out, self.x);
        assert(final(out)@ =~= old(out)@ + self.encode_1());
    }

    fn save_2(&self, out: &mut Vec<u8>)
        requires
            self.wf(),
        ensures
            final(out)@ == old(out)@ + self.encode_2(),
    {
        put_u16(out, self.v);
        put_u16(out, self.t);
        put_bool(out, self.w);
        put_bool(out, self.f);
        assert(final(out)@ =~= old(out)@ + self.encode_2());
    }

    fn save_3(&self, out: &mut Vec<u8>)
        requires
            self.wf(),
        ensures
            final(out)@ == old(out)@ + self.encode_3(),
    {
        put_u64(out, self.bg_pixel);
        put_u8(out, self.bg_nt);
        put_u8(out, self.bg_attr);
        put_u8(out, self.bg_bit_low);
        assert(final(out)@ =~= old(out)@ + self.encode_3());
    }

    fn save_4(&self, out: &mut Vec<u8>)
        requires
            self.wf(),
        ensures
            final(out)@ == old(out)@ + self.encode_4(),
    {
        put_u8(out, self.bg_bit_high);
        put_bytes(out, &self.oam);
        put_bytes(out, &self.oam2);
        put_words(out, &self.sp_cache);
        assert(final(out)@ =~= old(out)@ + self.encode_4());
    }

    fn save_5(&self, out: &mut Vec<u8>)
        requires
            self.wf(),
        ensures
            final(out)@ == old(out)@ + self.encode_5(),
    {
        put_bool(out, self.vblank);
        put_bool(out, self.vblank_lines);
        put_u8(out, self.buffered_read);
        put_bool(out, self.early_read);
        assert(final(out)@ =~= old(out)@ + self.encode_5());
    }

    fn save_6(&self, out: &mut Vec<u8>)
        requires
            self.wf(),
        ensures
            final(out)@ == old(out)@ + self.encode_6(),
    {
        self.mem.save(out);
        assert(final(out)@ =~= old(out)@ + self.encode_6());
    }

    pub fn save(&self, out: &mut Vec<u8>)
        requires
            self.wf(),
        ensures
            final(out)@ == old(out)@ + self.encode(),
            self.encode().len() == PPU_STATE_LEN,
    {
        proof {
            reveal(PPU::encode);
        }
        let ghost start = out@;
        self.save_0(out);
        proof {
            lemma_ppu_own_0(*self);
        }
        self.save_1(out);
        proof {
            lemma_ppu_own_1(*self);
        }
        self.save_2(out);
        proof {
            lemma_ppu_own_2(*self);
        }
        self.save_3(out);
        proof {
            lemma_ppu_own_3(*self);
        }
        self.save_4(out);
        proof {
            lemma_ppu_own_4(*self);
        }
        self.save_5(out);
        proof {
            lemma_ppu_own_5(*self);
        }
        self.save_6(out);
        proof {
            lemma_ppu_own_6(*self);
        }
        assert(out@ =~= start + self.encode());
    }

    /// The state saved at `pos`, or `None` when the bytes run short or describe no
    /// consistent state.
    pub fn decode(buf: &Vec<u8>, pos: usize) -> (r: Option<Self>)
        ensures
            r matches Some(t) ==> t.wf() && pos + PPU_STATE_LEN <= buf@.len() && t.decodes(
                buf@.subrange(pos as int, pos + PPU_STATE_LEN)),
            (pos + PPU_STATE_LEN <= buf@.len() && exists|t: Self| t.wf() && #[trigger] t.decodes(
                buf@.subrange(pos as int, pos + PPU_STATE_LEN))) ==> r is Some,
    {
        if buf.len() < PPU_STATE_LEN || pos > buf.len() - PPU_STATE_LEN {
            return None;
        }
        let ghost b = buf@.subrange(pos as int, pos + PPU_STATE_LEN);
        proof {
            reveal(PPU::decodes);
        }
        let ghost b0 = b.subrange(0, 6);
        assert(b0 =~= buf@.subrange(pos + 0, pos + 6));
        let scanline = get_u16(buf, pos + 0);
        let cycle = get_u16(buf, pos + 2);
        let ppuctl = get_u8(buf, pos + 4);
        let ppumask = get_u8(buf, pos + 5);
        let ghost b1 = b.subrange(6, 10);
        assert(b1 =~= buf@.subrange(pos + 6, pos + 10));
        let ppustatus = get_u8(buf, pos + 6);
        let oamaddr = get_u8(buf, pos + 7);
        let reg = get_u8(buf, pos + 8);
        let x = get_u8(buf, pos + 9);
        let ghost b2 = b.subrange(10, 16);
        assert(b2 =~= buf@.subrange(pos + 10, pos + 16));
        let v = get_u16(buf, pos + 10);
        let t = get_u16(buf, pos + 12);
        let w = get_bool(buf, pos + 14);
        let f = get_bool(buf, pos + 15);
        let ghost b3 = b.subrange(16, 27);
        assert(b3 =~= buf@.subrange(pos + 16, pos + 27));
        let bg_pixel = get_u64(buf, pos + 16);
        let bg_nt = get_u8(buf, pos + 24);
        let bg_attr = get_u8(buf, pos + 25);
        let bg_bit_low = get_u8(buf, pos + 26);
        let ghost b4 = b.subrange(27, 804);
        assert(b4 =~= buf@.subrange(pos + 27, pos + 804));
        let bg_bit_high = get_u8(buf, pos + 27);
        let oam = get_bytes(buf, pos + 28, 256);
        assert(b4.subrange(1, 257) =~= buf@.subrange(pos + 28, pos + 28 + 256));
        let oam2 = get_bytes(buf, pos + 284, 8);
        assert(b4.subrange(257, 265) =~= buf@.subrange(pos + 284, pos + 284 + 8));
        let sp_cache = get_words(buf, pos + 292, 256);
        assert(b4.subrange(265, 777) =~= buf@.subrange(pos + 292, pos + 292 + 512));
        let ghost b5 = b.subrange(804, 808);
        assert(b5 =~= buf@.subrange(pos + 804, pos + 808));
        let vblank = get_bool(buf, pos + 804);
        let vblank_lines = get_bool(buf, pos + 805);
        let buffered_read = get_u8(buf, pos + 806);
        let early_read = get_bool(buf, pos + 807);
        let ghost b6 = b.subrange(808, 2888);
        assert(b6 =~= buf@.subrange(pos + 808, pos + 2888));
        let mem = match PPUMemory::decode(buf, pos + 808) {
            Some(v) => v,
            None => {
                proof {
                    assert forall|u: Self| #[trigger] u.decodes(b) implies !u.wf() by {
                        lemma_ppu_field_mem(u, b);
                        assert(b.subrange(808, 2888) =~= buf@.subrange(pos + 808, pos + 808 + 2080));
                    }
                }
                return None;
            },
        };
        assert(b6.subrange(0, 2080) =~= buf@.subrange(pos + 808, pos + 808 + 2080));
        let t = PPU { scanline, cycle, ppuctl, ppumask, ppustatus, oamaddr, reg, x, v, t, w, f, bg_pixel, bg_nt, bg_attr, bg_bit_low, bg_bit_high, oam, oam2, sp_cache, vblank, vblank_lines, buffered_read, early_read, mem };
        assert(t.decodes_0(b0));
        assert(t.decodes_1(b1));
        assert(t.decodes_2(b2));
        assert(t.decodes_3(b3));
        assert(t.decodes_4(b4));
        assert(t.decodes_5(b5));
        assert(t.decodes_6(b6));
        assert(t.decodes(b));
        if !t.check_wf() {
            proof {
                assert forall|u: Self| #[trigger] u.decodes(b) implies !u.wf() by {
                    lemma_ppu_unique(t, u, b);
                }
            }
            return None;
        }
        Some(t)
    }

    /// Restores the state saved at `pos`; on failure nothing changes.
    pub fn load(&mut self, buf: &Vec<u8>, pos: usize) -> (ok: bool)
        requires
            old(self).wf(),
        ensures
            final(self).wf(),
            ok ==> pos + PPU_STATE_LEN <= buf@.len() && final(self).decodes(
                buf@.subrange(pos as int, pos + PPU_STATE_LEN)),
            !ok ==> *final(self) == *old(self),
            (pos + PPU_STATE_LEN <= buf@.len() && exists|t: Self| t.wf() && #[trigger] t.decodes(
                buf@.subrange(pos as int, pos + PPU_STATE_LEN))) ==> ok,
    {
        match Self::decode(buf, pos) {
            Some(t) => {
                *self = t;
                true
            },
            None => false,
        }
    }
}

/// Round trip: what `save` writes decodes to the state saved, and any state decoding those
/// bytes equals it in every saved field.
pub proof fn lemma_ppu_round_trip(s: PPU, t: PPU)
    requires
        s.wf(),
        t.decodes(s.encode()),
    ensures
        s.decodes(s.encode()),
        t.same_as(s),
{
    lemma_ppu_decodes_own(s);
    lemma_ppu_unique(s, t, s.encode());
}

/// Two states decoding the same bytes agree in every saved field, and one is consistent
/// exactly when the other is.
pub proof fn lemma_ppu_unique(s: PPU, t: PPU, b: Seq<u8>)
    requires
        s.decodes(b),
        t.decodes(b),
    ensures
        t.same_as(s),
        t.wf() == s.wf(),
{
    reveal(PPU::decodes);
    reveal(PPU::same_as);
    lemma_ppu_unique_0(s, t, b.subrange(0, 6));
    lemma_ppu_unique_1(s, t, b.subrange(6, 10));
    lemma_ppu_unique_2(s, t, b.subrange(10, 16));
    lemma_ppu_unique_3(s, t, b.subrange(16, 27));
    lemma_ppu_unique_4(s, t, b.subrange(27, 804));
    lemma_ppu_unique_5(s, t, b.subrange(804, 808));
    lemma_ppu_unique_6(s, t, b.subrange(808, 2888));
}

proof fn lemma_ppu_unique_0(s: PPU, t: PPU, b: Seq<u8>)
    requires
        s.decodes_0(b),
        t.decodes_0(b),
    ensures
        t.scanline == s.scanline,
        t.cycle == s.cycle,
        t.ppuctl == s.ppuctl,
        t.ppumask == s.ppumask,
{
}

proof fn lemma_ppu_unique_1(s: PPU, t: PPU, b: Seq<u8>)
    requires
        s.decodes_1(b),
        t.decodes_1(b),
    ensures
        t.ppustatus == s.ppustatus,
        t.oamaddr == s.oamaddr,
        t.reg == s.reg,
        t.x == s.x,
{
}

proof fn lemma_ppu_unique_2(s: PPU, t: PPU, b: Seq<u8>)
    requires
        s.decodes_2(b),
        t.decodes_2(b),
    ensures
        t.v == s.v,
        t.t == s.t,
        t.w == s.w,
        t.f == s.f,
{
}

proof fn lemma_ppu_unique_3(s: PPU, t: PPU, b: Seq<u8>)
    requires
        s.decodes_3(b),
        t.decodes_3(b),
    ensures
        t.bg_pixel == s.bg_pixel,
        t.bg_nt == s.bg_nt,
        t.bg_attr == s.bg_attr,
        t.bg_bit_low == s.bg_bit_low,
{
}

proof fn lemma_ppu_unique_4(s: PPU, t: PPU, b: Seq<u8>)
    requires
        s.decodes_4(b),
        t.decodes_4(b),
    ensures
        t.bg_bit_high == s.bg_bit_high,
        t.oam@ == s.oam@,
        t.oam2@ == s.oam2@,
        t.sp_cache@ == s.sp_cache@,
{
}

proof fn lemma_ppu_unique_5(s: PPU, t: PPU, b: Seq<u8>)
    requires
        s.decodes_5(b),
        t.decodes_5(b),
    ensures
        t.vblank == s.vblank,
        t.vblank_lines == s.vblank_lines,
        t.buffered_read == s.buffered_read,
        t.early_read == s.early_read,
{
}

proof fn lemma_ppu_unique_6(s: PPU, t: PPU, b: Seq<u8>)
    requires
        s.decodes_6(b),
        t.decodes_6(b),
    ensures
        t.mem.same_as(s.mem),
        t.mem.wf() == s.mem.wf(),
{
    lemma_ppumemory_unique(s.mem, t.mem, b.subrange(0, 2080));
}

proof fn lemma_ppu_field_mem(u: PPU, b: Seq<u8>)
    requires
        u.decodes(b),
    ensures
        u.mem.decodes(b.subrange(808, 2888)),
        u.wf() ==> u.mem.wf(),
{
    reveal(PPU::decodes);
    assert(b.subrange(808, 2888).subrange(0, 2080) =~= b.subrange(808, 2888));
}

pub proof fn lemma_ppu_decodes_own(s: PPU)
    requires
        s.wf(),
    ensures
        s.decodes(s.encode()),
        s.encode().len() == 2888,
{
    reveal(PPU::decodes);
    reveal(PPU::encode);
    lemma_ppu_own_0(s);
    lemma_ppu_own_1(s);
    lemma_ppu_own_2(s);
    lemma_ppu_own_3(s);
    lemma_ppu_own_4(s);
    lemma_ppu_own_5(s);
    lemma_ppu_own_6(s);
    let e = s.encode();
    assert(e.subrange(0, 6) =~= s.encode_0());
    assert(e.subrange(6, 10) =~= s.encode_1());
    assert(e.subrange(10, 16) =~= s.encode_2());
    assert(e.subrange(16, 27) =~= s.encode_3());
    assert(e.subrange(27, 804) =~= s.encode_4());
    assert(e.subrange(804, 808) =~= s.encode_5());
    assert(e.subrange(808, 2888) =~= s.encode_6());
}

proof fn lemma_ppu_own_0(s: PPU)
    requires
        s.wf(),
    ensures
        s.encode_0().len() == 6,
        s.decodes_0(s.encode_0()),
{
    let e = s.encode_0();
    assert(e.subrange(0, 2) =~= enc_u16(s.scanline));
    lemma_dec_u16(e, 0, s.scanline);
    assert(e.subrange(2, 4) =~= enc_u16(s.cycle));
    lemma_dec_u16(e, 2, s.cycle);
    assert(e.subrange(4, 5) =~= seq![s.ppuctl]);
    lemma_dec_u8(e, 4, s.ppuctl);
    assert(e.subrange(5, 6) =~= seq![s.ppumask]);
    lemma_dec_u8(e, 5, s.ppumask);
}

proof fn lemma_ppu_own_1(s: PPU)
    requires
        s.wf(),
    ensures
        s.encode_1().len() == 4,
        s.decodes_1(s.encode_1()),
{
    let e = s.encode_1();
    assert(e.subrange(0, 1) =~= seq![s.ppustatus]);
    lemma_dec_u8(e, 0, s.ppustatus);
    assert(e.subrange(1, 2) =~= seq![s.oamaddr]);
    lemma_dec_u8(e, 1, s.oamaddr);
    assert(e.subrange(2, 3) =~= seq![s.reg]);
    lemma_dec_u8(e, 2, s.reg);
    assert(e.subrange(3, 4) =~= seq![s.x]);
    lemma_dec_u8(e, 3, s.x);
}

proof fn lemma_ppu_own_2(s: PPU)
    requires
        s.wf(),
    ensures
        s.encode_2().len() == 6,
        s.decodes_2(s.encode_2()),
{
    let e = s.encode_2();
    assert(e.subrange(0, 2) =~= enc_u16(s.v));
    lemma_dec_u16(e, 0, s.v);
    assert(e.subrange(2, 4) =~= enc_u16(s.t));
    lemma_dec_u16(e, 2, s.t);
    assert(e.subrange(4, 5) =~= enc_bool(s.w));
    lemma_dec_bool(e, 4, s.w);
    assert(e.subrange(5, 6) =~= enc_bool(s.f));
    lemma_dec_bool(e, 5, s.f);
}

proof fn lemma_ppu_own_3(s: PPU)
    requires
        s.wf(),
    ensures
        s.encode_3().len() == 11,
        s.decodes_3(s.encode_3()),
{
    let e = s.encode_3();
    assert(e.subrange(0, 8) =~= enc_u64(s.bg_pixel));
    lemma_dec_u64(e, 0, s.bg_pixel);
    assert(e.subrange(8, 9) =~= seq![s.bg_nt]);
    lemma_dec_u8(e, 8, s.bg_nt);
    assert(e.subrange(9, 10) =~= seq![s.bg_attr]);
    lemma_dec_u8(e, 9, s.bg_attr);
    assert(e.subrange(10, 11) =~= seq![s.bg_bit_low]);
    lemma_dec_u8(e, 10, s.bg_bit_low);
}

proof fn lemma_ppu_own_4(s: PPU)
    requires
        s.wf(),
    ensures
        s.encode_4().len() == 777,
        s.decodes_4(s.encode_4()),
{
    let e = s.encode_4();
    assert(e.subrange(0, 1) =~= seq![s.bg_bit_high]);
    lemma_dec_u8(e, 0, s.bg_bit_high);
    assert(e.subrange(1, 257) =~= s.oam@);
    assert(e.subrange(257, 265) =~= s.oam2@);
    assert(e.subrange(265, 777) =~= enc_words(s.sp_cache@));
    lemma_words_own(s.sp_cache@);
}

proof fn lemma_ppu_own_5(s: PPU)
    requires
        s.wf(),
    ensures
        s.encode_5().len() == 4,
        s.decodes_5(s.encode_5()),
{
    let e = s.encode_5();
    assert(e.subrange(0, 1) =~= enc_bool(s.vblank));
    lemma_dec_bool(e, 0, s.vblank);
    assert(e.subrange(1, 2) =~= enc_bool(s.vblank_lines));
    lemma_dec_bool(e, 1, s.vblank_lines);
    assert(e.subrange(2, 3) =~= seq![s.buffered_read]);
    lemma_dec_u8(e, 2, s.buffered_read);
    assert(e.subrange(3, 4) =~= enc_bool(s.early_read));
    lemma_dec_bool(e, 3, s.early_read);
}

proof fn lemma_ppu_own_6(s: PPU)
    requires
        s.wf(),
    ensures
        s.encode_6().len() == 2080,
        s.decodes_6(s.encode_6()),
{
    lemma_ppumemory_decodes_own(s.mem);
    let e = s.encode_6();
    assert(e.subrange(0, 2080) =~= s.mem.encode());
}

} // verus!
