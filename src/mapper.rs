use vstd::prelude::*;
use crate::cartridge::{SimpleCart, MirrorType, MAX_ROM_SIZE, SRAM_SIZE, mirror_of_code};
use crate::utils::{put_u8, put_u32, get_u8, get_u32, enc_u32, dec_u32};

verus! {

/// Addresses a mapper answers: pattern tables below 0x2000, SRAM and PRG from 0x6000.
pub open spec fn mapped(addr: u16) -> bool {
    addr < 0x2000 || addr >= 0x6000
}

/// MMC1 (iNES mapper 1): a serial load register feeding four internal registers.
pub struct Mapper1 {
    pub cart: SimpleCart,
    /// byte offsets of the two 16 KB PRG windows at 0x8000 and 0xc000
    pub prg_banks: [usize; 2],
    /// byte offsets of the two 4 KB CHR windows at 0x0000 and 0x1000
    pub chr_banks: [usize; 2],
    pub ctl_reg: u8,
    pub load_reg: u8,
    /// number of 16 KB PRG banks
    pub prg_nbank: usize,
    /// number of 8 KB CHR banks
    pub chr_nbank: usize,
}

/// The mirroring an MMC1 control value selects.
pub open spec fn mmc1_mirror(ctl: u8) -> MirrorType {
    if ctl & 3 == 0 {
        MirrorType::Single0
    } else if ctl & 3 == 1 {
        MirrorType::Single1
    } else if ctl & 3 == 2 {
        MirrorType::Vertical
    } else {
        MirrorType::Horizontal
    }
}

impl Mapper1 {
    pub open spec fn wf(&self) -> bool {
        &&& self.cart.wf()
        &&& self.prg_nbank >= 1
        &&& self.prg_nbank * 0x4000 == self.cart.prg_rom@.len()
        &&& self.chr_nbank >= 1
        &&& self.chr_nbank * 0x2000 == self.cart.chr_rom@.len()
        &&& self.prg_banks[0] + 0x4000 <= self.cart.prg_rom@.len()
        &&& self.prg_banks[1] + 0x4000 <= self.cart.prg_rom@.len()
        &&& self.chr_banks[0] + 0x1000 <= self.cart.chr_rom@.len()
        &&& self.chr_banks[1] + 0x1000 <= self.cart.chr_rom@.len()
    }

    pub open spec fn spec_read(&self, addr: u16) -> u8 {
        if addr < 0x2000 {
            self.cart.chr_rom@[self.chr_banks[(addr / 0x1000) as int] + addr % 0x1000]
        } else if addr < 0x8000 {
            self.cart.sram@[addr - 0x6000]
        } else {
            self.cart.prg_rom@[self.prg_banks[((addr - 0x8000) / 0x4000) as int] + addr % 0x4000]
        }
    }

    /// The state after the fifth serial write, with `v` the completed 5-bit value and `sel`
    /// the internal register chosen by address bits 13 and 14.
    pub open spec fn committed(self, sel: int, v: u8) -> Mapper1 {
        let s = Mapper1 { load_reg: 0x10, ..self };
        if sel == 0 {
            Mapper1 {
                ctl_reg: v,
                cart: SimpleCart { mirror_type: mmc1_mirror(v), ..s.cart },
                ..s
            }
        } else if sel == 1 {
            if (self.ctl_reg >> 4) & 1 == 0 {
                let base = ((v & 0xfe) as int % self.chr_nbank as int) * 0x2000;
                Mapper1 { chr_banks: [base as usize, (base + 0x1000) as usize], ..s }
            } else {
                let b = (v as int % (2 * self.chr_nbank) as int) * 0x1000;
                Mapper1 { chr_banks: [b as usize, self.chr_banks[1]], ..s }
            }
        } else if sel == 2 {
            if (self.ctl_reg >> 4) & 1 == 1 {
                let b = (v as int % (2 * self.chr_nbank) as int) * 0x1000;
                Mapper1 { chr_banks: [self.chr_banks[0], b as usize], ..s }
            } else {
                s
            }
        } else {
            let v = v & 0xf;
            let mode = (self.ctl_reg >> 2) & 3;
            if mode == 0 || mode == 1 {
                if self.prg_nbank < 2 {
                    Mapper1 { prg_banks: [0usize, 0usize], ..s }
                } else {
                    let base = ((v & 0xfe) as int % (self.prg_nbank / 2) as int) * 0x8000;
                    Mapper1 { prg_banks: [base as usize, (base + 0x4000) as usize], ..s }
                }
            } else if mode == 2 {
                let b = (v as int % self.prg_nbank as int) * 0x4000;
                Mapper1 { prg_banks: [0, b as usize], ..s }
            } else {
                let b = (v as int % self.prg_nbank as int) * 0x4000;
                Mapper1 { prg_banks: [b as usize, ((self.prg_nbank - 1) * 0x4000) as usize], ..s }
            }
        }
    }

    pub fn new(cart: SimpleCart) -> (m: Self)
        requires
            cart.wf(),
        ensures
            m.wf(),
            m.cart == cart,
            m.ctl_reg == 0x0c,
            m.load_reg == 0x10,
            m.prg_banks == [0usize, (cart.prg_rom@.len() - 0x4000) as usize],
            m.chr_banks == [0usize, 0x1000usize],
    {
        let prg_nbank = cart.prg_rom.len() / 0x4000;
        let chr_nbank = cart.chr_rom.len() / 0x2000;
        Mapper1 {
            cart,
            prg_nbank,
            chr_nbank,
            load_reg: 0x10,
            ctl_reg: 0x0c,
            prg_banks: [0, (prg_nbank - 1) * 0x4000],
            chr_banks: [0, 0x1000],
        }
    }

    pub fn read(&self, addr: u16) -> (r: u8)
        requires
            self.wf(),
            mapped(addr),
        ensures
            r == self.spec_read(addr),
    {
        let a = addr as usize;
        if a < 0x2000 {
            self.cart.chr_rom[self.chr_banks[a / 0x1000] + a % 0x1000]
        } else if a < 0x8000 {
            self.cart.sram[a - 0x6000]
        } else {
            self.cart.prg_rom[self.prg_banks[(a - 0x8000) / 0x4000] + a % 0x4000]
        }
    }

    pub fn write(&mut self, addr: u16, data: u8)
        requires
            old(self).wf(),
            mapped(addr),
        ensures
            final(self).wf(),
            Self::write_post(*old(self), *final(self), addr, data),
    {
        let a = addr as usize;
        if a < 0x2000 {
            let i = self.chr_banks[a / 0x1000] + a % 0x1000;
            self.cart.chr_rom.set(i, data);
        } else if a < 0x8000 {
            self.cart.sram.set(a - 0x6000, data);
        } else {
            self.write_loadreg(addr, data);
        }
    }

    /// What a write does: CHR and SRAM writes store the byte; PRG writes feed the serial port.
    pub open spec fn write_post(pre: Mapper1, post: Mapper1, addr: u16, data: u8) -> bool {
        &&& addr < 0x2000 ==> post.cart.chr_rom@ == pre.cart.chr_rom@.update(
            pre.chr_banks[(addr / 0x1000) as int] + addr % 0x1000, data)
            && post.cart.sram@ == pre.cart.sram@
        &&& 0x6000 <= addr < 0x8000 ==> post.cart.sram@ == pre.cart.sram@.update(addr - 0x6000, data)
            && post.cart.chr_rom@ == pre.cart.chr_rom@
        &&& addr < 0x8000 ==> post.prg_banks == pre.prg_banks && post.chr_banks == pre.chr_banks
            && post.ctl_reg == pre.ctl_reg && post.load_reg == pre.load_reg
            && post.prg_nbank == pre.prg_nbank && post.chr_nbank == pre.chr_nbank
            && post.cart.prg_rom@ == pre.cart.prg_rom@
            && post.cart.mirror_type == pre.cart.mirror_type
        &&& addr >= 0x8000 ==> post.serial_written(pre, addr, data)
    }

    /// What one write to the serial port does.
    pub open spec fn serial_written(self, pre: Mapper1, addr: u16, data: u8) -> bool {
        if data & 0x80 == 0x80 {
            self == Mapper1 { ctl_reg: pre.ctl_reg | 0x0c, load_reg: 0x10, ..pre }
        } else if pre.load_reg & 1 == 0 {
            self == Mapper1 { load_reg: ((pre.load_reg >> 1) | ((data & 1) << 4)) as u8, ..pre }
        } else {
            self == pre.committed(
                (addr - 0x8000) / 0x2000,
                ((pre.load_reg >> 1) | ((data & 1) << 4)) as u8,
            )
        }
    }

    fn write_loadreg(&mut self, addr: u16, data: u8)
        requires
            old(self).wf(),
            addr >= 0x8000,
        ensures
            final(self).wf(),
            final(self).serial_written(*old(self), addr, data),
    {
        if data & 0x80 == 0x80 {
            self.ctl_reg = self.ctl_reg | 0x0c;
            self.load_reg = 0x10;
            return ;
        }
        let triggered = self.load_reg & 1 == 1;
        proof {
            crate::utils::lemma_byte_fields(self.load_reg);
        }
        self.load_reg = (self.load_reg >> 1) | ((data & 1) << 4);
        if !triggered {
            return ;
        }
        let v = self.load_reg;
        let sel = (addr as usize - 0x8000) / 0x2000;
        if sel == 0 {
            self.ctl_reg = v;
            let mt = if v & 3 == 0 {
                MirrorType::Single0
            } else if v & 3 == 1 {
                MirrorType::Single1
            } else if v & 3 == 2 {
                MirrorType::Vertical
            } else {
                MirrorType::Horizontal
            };
            self.cart.set_mirror_type(mt);
        } else if sel == 1 {
            if (self.ctl_reg >> 4) & 1 == 0 {
                let base = ((v & 0xfe) as usize % self.chr_nbank) * 0x2000;
                self.chr_banks = [base, base + 0x1000];
            } else {
                self.chr_banks = [(v as usize % (2 * self.chr_nbank)) * 0x1000, self.chr_banks[1]];
            }
        } else if sel == 2 {
            if (self.ctl_reg >> 4) & 1 == 1 {
                self.chr_banks = [self.chr_banks[0], (v as usize % (2 * self.chr_nbank)) * 0x1000];
            }
        } else {
            let v = v & 0xf;
            let mode = (self.ctl_reg >> 2) & 3;
            if mode == 0 || mode == 1 {
                if self.prg_nbank < 2 {
                    self.prg_banks = [0, 0];
                } else {
                    let base = ((v & 0xfe) as usize % (self.prg_nbank / 2)) * 0x8000;
                    self.prg_banks = [base, base + 0x4000];
                }
            } else if mode == 2 {
                self.prg_banks = [0, (v as usize % self.prg_nbank) * 0x4000];
            } else {
                self.prg_banks = [(v as usize % self.prg_nbank) * 0x4000, (self.prg_nbank - 1) * 0x4000];
            }
        }
        self.load_reg = 0x10;
    }
}

/// UxROM (iNES mappers 0 and 2): a switchable low 16 KB PRG window and a fixed high one.
pub struct Mapper2 {
    pub cart: SimpleCart,
    pub prg_banks: [usize; 2],
    pub chr_bank: usize,
    pub prg_nbank: usize,
}

impl Mapper2 {
    pub open spec fn wf(&self) -> bool {
        &&& self.cart.wf()
        &&& self.prg_nbank >= 1
        &&& self.prg_nbank * 0x4000 == self.cart.prg_rom@.len()
        &&& self.prg_banks[0] + 0x4000 <= self.cart.prg_rom@.len()
        &&& self.prg_banks[1] + 0x4000 <= self.cart.prg_rom@.len()
        &&& self.chr_bank + 0x2000 <= self.cart.chr_rom@.len()
    }

    pub open spec fn spec_read(&self, addr: u16) -> u8 {
        if addr < 0x2000 {
            self.cart.chr_rom@[self.chr_bank + addr]
        } else if addr < 0x8000 {
            self.cart.sram@[addr - 0x6000]
        } else {
            self.cart.prg_rom@[self.prg_banks[((addr - 0x8000) / 0x4000) as int] + addr % 0x4000]
        }
    }

    pub open spec fn write_post(pre: Mapper2, post: Mapper2, addr: u16, data: u8) -> bool {
        &&& addr < 0x2000 ==> post == Mapper2 { cart: post.cart, ..pre }
            && post.cart.chr_rom@ == pre.cart.chr_rom@.update(pre.chr_bank + addr, data)
            && post.cart.sram@ == pre.cart.sram@
        &&& 0x6000 <= addr < 0x8000 ==> post == Mapper2 { cart: post.cart, ..pre }
            && post.cart.sram@ == pre.cart.sram@.update(addr - 0x6000, data)
            && post.cart.chr_rom@ == pre.cart.chr_rom@
        &&& addr < 0x8000 ==> post.cart.prg_rom@ == pre.cart.prg_rom@
            && post.cart.mirror_type == pre.cart.mirror_type
        &&& addr >= 0x8000 ==> post == Mapper2 {
            prg_banks: [((data as int % pre.prg_nbank as int) * 0x4000) as usize, pre.prg_banks[1]],
            ..pre
        }
    }

    pub fn new(cart: SimpleCart) -> (m: Self)
        requires
            cart.wf(),
        ensures
            m.wf(),
            m.cart == cart,
            m.prg_banks == [0usize, (cart.prg_rom@.len() - 0x4000) as usize],
            m.chr_bank == 0,
    {
        let nbank = cart.prg_rom.len() / 0x4000;
        Mapper2 { cart, prg_nbank: nbank, prg_banks: [0, (nbank - 1) * 0x4000], chr_bank: 0 }
    }

    pub fn read(&self, addr: u16) -> (r: u8)
        requires
            self.wf(),
            mapped(addr),
        ensures
            r == self.spec_read(addr),
    {
        let a = addr as usize;
        if a < 0x2000 {
            self.cart.chr_rom[self.chr_bank + a]
        } else if a < 0x8000 {
            self.cart.sram[a - 0x6000]
        } else {
            self.cart.prg_rom[self.prg_banks[(a - 0x8000) / 0x4000] + a % 0x4000]
        }
    }

    pub fn write(&mut self, addr: u16, data: u8)
        requires
            old(self).wf(),
            mapped(addr),
        ensures
            final(self).wf(),
            Self::write_post(*old(self), *final(self), addr, data),
    {
        let a = addr as usize;
        if a < 0x2000 {
            let i = self.chr_bank + a;
            self.cart.chr_rom.set(i, data);
        } else if a < 0x8000 {
            self.cart.sram.set(a - 0x6000, data);
        } else {
            self.prg_banks = [(data as usize % self.prg_nbank) * 0x4000, self.prg_banks[1]];
        }
    }
}

/// MMC3 (iNES mapper 4): eight bank registers and a scanline counter that raises IRQs.
pub struct Mapper4 {
    pub cart: SimpleCart,
    /// byte offsets of the four 8 KB PRG windows from 0x8000
    pub prg_banks: [usize; 4],
    /// byte offsets of the eight 1 KB CHR windows from 0x0000
    pub chr_banks: [usize; 8],
    /// number of 8 KB PRG banks
    pub prg_nbank: usize,
    /// number of 1 KB CHR banks
    pub chr_nbank: usize,
    pub chr_inv: u8,
    pub prg_mode: u8,
    pub reg_idx: u8,
    pub regs: [u8; 8],
    pub irq_reload: u8,
    pub irq_counter: u8,
    pub irq_enable: bool,
}

/// The window a bank number selects, counted modulo the number of banks and kept in a byte.
pub open spec fn bank_offset(sel: int, nbank: int, size: int) -> int {
    ((sel % nbank) as u8) as int * size
}

impl Mapper4 {
    pub open spec fn wf(&self) -> bool {
        &&& self.cart.wf()
        &&& self.prg_nbank >= 2
        &&& self.prg_nbank * 0x2000 == self.cart.prg_rom@.len()
        &&& self.chr_nbank >= 1
        &&& self.chr_nbank * 0x400 == self.cart.chr_rom@.len()
        &&& forall|i: int| 0 <= i < 4 ==> self.prg_banks[i] + 0x2000 <= self.cart.prg_rom@.len()
        &&& forall|i: int| 0 <= i < 8 ==> self.chr_banks[i] + 0x400 <= self.cart.chr_rom@.len()
        &&& self.reg_idx < 8
    }

    /// The bank register (or fixed bank) behind PRG window `i`.
    pub open spec fn prg_sel(&self, i: int) -> int {
        let n = self.prg_nbank;
        if self.prg_mode == 0 {
            if i == 0 {
                self.regs[6] as int
            } else if i == 1 {
                self.regs[7] as int
            } else if i == 2 {
                ((n - 2) as u8) as int
            } else {
                ((n - 1) as u8) as int
            }
        } else {
            if i == 0 {
                ((n - 2) as u8) as int
            } else if i == 1 {
                self.regs[7] as int
            } else if i == 2 {
                self.regs[6] as int
            } else {
                ((n - 1) as u8) as int
            }
        }
    }

    /// The bank register behind CHR window `i`; the 2 KB registers 0 and 1 cover two windows.
    pub open spec fn chr_sel(&self, i: int) -> int {
        let j = if self.chr_inv == 0 { i } else { (i + 4) % 8 };
        if j == 0 {
            (self.regs[0] & 0xfe) as int
        } else if j == 1 {
            (self.regs[0] | 0x01) as int
        } else if j == 2 {
            (self.regs[1] & 0xfe) as int
        } else if j == 3 {
            (self.regs[1] | 0x01) as int
        } else {
            self.regs[j - 2] as int
        }
    }

    pub open spec fn banks_match(&self) -> bool {
        &&& forall|i: int| 0 <= i < 4 ==> self.prg_banks[i] == bank_offset(
            self.prg_sel(i), self.prg_nbank as int, 0x2000)
        &&& forall|i: int| 0 <= i < 8 ==> self.chr_banks[i] == bank_offset(
            self.chr_sel(i), self.chr_nbank as int, 0x400)
    }

    pub open spec fn spec_read(&self, addr: u16) -> u8 {
        if addr < 0x2000 {
            self.cart.chr_rom@[self.chr_banks[(addr / 0x400) as int] + addr % 0x400]
        } else if addr < 0x8000 {
            self.cart.sram@[addr - 0x6000]
        } else {
            self.cart.prg_rom@[self.prg_banks[((addr - 0x8000) / 0x2000) as int] + addr % 0x2000]
        }
    }

    fn prg_offset(&self, sel: usize) -> (r: usize)
        requires
            self.wf(),
        ensures
            r == bank_offset(sel as int, self.prg_nbank as int, 0x2000),
            r + 0x2000 <= self.cart.prg_rom@.len(),
    {
        let t = (sel % self.prg_nbank) as u8;
        t as usize * 0x2000
    }

    fn chr_offset(&self, sel: usize) -> (r: usize)
        requires
            self.wf(),
        ensures
            r == bank_offset(sel as int, self.chr_nbank as int, 0x400),
            r + 0x400 <= self.cart.chr_rom@.len(),
    {
        let t = (sel % self.chr_nbank) as u8;
        t as usize * 0x400
    }

    fn update_banks(&mut self)
        requires
            old(self).wf(),
        ensures
            final(self).wf(),
            final(self).banks_match(),
            *final(self) == (Mapper4 {
                prg_banks: final(self).prg_banks,
                chr_banks: final(self).chr_banks,
                ..*old(self)
            }),
    {
        let n = self.prg_nbank;
        let r6 = self.regs[6] as usize;
        let r7 = self.regs[7] as usize;
        let second_last = ((n - 2) as u8) as usize;
        let last = ((n - 1) as u8) as usize;
        if self.prg_mode == 0 {
            self.prg_banks = [
                self.prg_offset(r6),
                self.prg_offset(r7),
                self.prg_offset(second_last),
                self.prg_offset(last),
            ];
        } else {
            self.prg_banks = [
                self.prg_offset(second_last),
                self.prg_offset(r7),
                self.prg_offset(r6),
                self.prg_offset(last),
            ];
        }
        let c0 = (self.regs[0] & 0xfe) as usize;
        let c1 = (self.regs[0] | 0x01) as usize;
        let c2 = (self.regs[1] & 0xfe) as usize;
        let c3 = (self.regs[1] | 0x01) as usize;
        let c4 = self.regs[2] as usize;
        let c5 = self.regs[3] as usize;
        let c6 = self.regs[4] as usize;
        let c7 = self.regs[5] as usize;
        if self.chr_inv == 0 {
            self.chr_banks = [
                self.chr_offset(c0),
                self.chr_offset(c1),
                self.chr_offset(c2),
                self.chr_offset(c3),
                self.chr_offset(c4),
                self.chr_offset(c5),
                self.chr_offset(c6),
                self.chr_offset(c7),
            ];
        } else {
            self.chr_banks = [
                self.chr_offset(c4),
                self.chr_offset(c5),
                self.chr_offset(c6),
                self.chr_offset(c7),
                self.chr_offset(c0),
                self.chr_offset(c1),
                self.chr_offset(c2),
                self.chr_offset(c3),
            ];
        }
    }

    pub fn new(cart: SimpleCart) -> (m: Self)
        requires
            cart.wf(),
        ensures
            m.wf(),
            m.cart == cart,
            m.prg_mode == 0 && m.chr_inv == 0 && m.reg_idx == 0,
            forall|i: int| 0 <= i < 8 ==> m.regs[i] == 0,
            m.irq_reload == 0 && m.irq_counter == 0 && !m.irq_enable,
            m.prg_banks == [0usize, 0x2000, (cart.prg_rom@.len() - 0x4000) as usize,
                (cart.prg_rom@.len() - 0x2000) as usize],
            forall|i: int| 0 <= i < 8 ==> m.chr_banks[i] == 0,
    {
        let prg_nbank = cart.prg_rom.len() / 0x2000;
        let chr_nbank = cart.chr_rom.len() / 0x400;
        Mapper4 {
            cart,
            prg_nbank,
            chr_nbank,
            prg_mode: 0,
            chr_inv: 0,
            reg_idx: 0,
            regs: [0; 8],
            prg_banks: [0, 0x2000, (prg_nbank - 2) * 0x2000, (prg_nbank - 1) * 0x2000],
            chr_banks: [0; 8],
            irq_reload: 0,
            irq_counter: 0,
            irq_enable: false,
        }
    }

    pub fn read(&self, addr: u16) -> (r: u8)
        requires
            self.wf(),
            mapped(addr),
        ensures
            r == self.spec_read(addr),
    {
        let a = addr as usize;
        if a < 0x2000 {
            self.cart.chr_rom[self.chr_banks[a / 0x400] + a % 0x400]
        } else if a < 0x8000 {
            self.cart.sram[a - 0x6000]
        } else {
            self.cart.prg_rom[self.prg_banks[(a - 0x8000) / 0x2000] + a % 0x2000]
        }
    }

    pub open spec fn write_post(pre: Mapper4, post: Mapper4, addr: u16, data: u8) -> bool {
        let even = addr % 2 == 0;
        &&& addr < 0x2000 ==> post == Mapper4 { cart: post.cart, ..pre }
            && post.cart.chr_rom@ == pre.cart.chr_rom@.update(
                pre.chr_banks[(addr / 0x400) as int] + addr % 0x400, data)
            && post.cart.sram@ == pre.cart.sram@
        &&& 0x6000 <= addr < 0x8000 ==> post == Mapper4 { cart: post.cart, ..pre }
            && post.cart.sram@ == pre.cart.sram@.update(addr - 0x6000, data)
            && post.cart.chr_rom@ == pre.cart.chr_rom@
        &&& addr >= 0x8000 ==> post.cart.chr_rom@ == pre.cart.chr_rom@ && post.cart.sram@
            == pre.cart.sram@
        &&& post.cart.prg_rom@ == pre.cart.prg_rom@
        &&& !(0xa000 <= addr < 0xc000 && even) ==> post.cart.mirror_type == pre.cart.mirror_type
        &&& 0x8000 <= addr < 0xa000 && even ==> post == Mapper4 {
            cart: post.cart,
            prg_banks: post.prg_banks,
            chr_banks: post.chr_banks,
            prg_mode: (data >> 6) & 1,
            chr_inv: (data >> 7) & 1,
            reg_idx: data & 7,
            ..pre
        } && post.banks_match()
        &&& 0x8000 <= addr < 0xa000 && !even ==> post == Mapper4 {
            cart: post.cart,
            prg_banks: post.prg_banks,
            chr_banks: post.chr_banks,
            regs: post.regs,
            ..pre
        } && post.regs@ == pre.regs@.update(pre.reg_idx as int, data) && post.banks_match()
        &&& 0xa000 <= addr < 0xc000 ==> post == Mapper4 { cart: post.cart, ..pre }
        &&& 0xa000 <= addr < 0xc000 && even ==> post.cart.mirror_type == (if data & 1 == 0 {
            MirrorType::Vertical
        } else {
            MirrorType::Horizontal
        })
        &&& 0xc000 <= addr < 0xe000 && even ==> post == Mapper4 { cart: post.cart, irq_reload: data, ..pre }
        &&& 0xc000 <= addr < 0xe000 && !even ==> post == Mapper4 { cart: post.cart, irq_counter: 0, ..pre }
        &&& addr >= 0xe000 ==> post == Mapper4 { cart: post.cart, irq_enable: !even, ..pre }
    }
}

impl Mapper4 {
    pub fn write(&mut self, addr: u16, data: u8)
        requires
            old(self).wf(),
            mapped(addr),
        ensures
            final(self).wf(),
            Self::write_post(*old(self), *final(self), addr, data),
    {
        let a = addr as usize;
        if a < 0x2000 {
            let i = self.chr_banks[a / 0x400] + a % 0x400;
            self.cart.chr_rom.set(i, data);
        } else if a < 0x8000 {
            self.cart.sram.set(a - 0x6000, data);
        } else if a < 0xa000 {
            if a % 2 == 0 {
                self.write_select_reg(data);
            } else {
                self.write_bank_data(data);
            }
        } else if a < 0xc000 {
            if a % 2 == 0 {
                self.write_mirror(data);
            }
        } else if a < 0xe000 {
            if a % 2 == 0 {
                self.irq_reload = data;
            } else {
                self.irq_counter = 0;
            }
        } else {
            self.irq_enable = a % 2 == 1;
        }
    }

    fn write_select_reg(&mut self, data: u8)
        requires
            old(self).wf(),
        ensures
            final(self).wf(),
            final(self).banks_match(),
            *final(self) == (Mapper4 {
                prg_banks: final(self).prg_banks,
                chr_banks: final(self).chr_banks,
                prg_mode: (data >> 6) & 1,
                chr_inv: (data >> 7) & 1,
                reg_idx: data & 7,
                ..*old(self)
            }),
    {
        self.prg_mode = (data >> 6) & 1;
        self.chr_inv = (data >> 7) & 1;
        self.reg_idx = data & 7;
        proof {
            crate::utils::lemma_byte_fields(data);
        }
        self.update_banks();
    }

    fn write_bank_data(&mut self, data: u8)
        requires
            old(self).wf(),
        ensures
            final(self).wf(),
            final(self).banks_match(),
            *final(self) == (Mapper4 {
                prg_banks: final(self).prg_banks,
                chr_banks: final(self).chr_banks,
                regs: final(self).regs,
                ..*old(self)
            }),
            final(self).regs@ == old(self).regs@.update(old(self).reg_idx as int, data),
    {
        self.regs[self.reg_idx as usize] = data;
        self.update_banks();
    }

    fn write_mirror(&mut self, data: u8)
        requires
            old(self).wf(),
        ensures
            final(self).wf(),
            *final(self) == (Mapper4 { cart: final(self).cart, ..*old(self) }),
            final(self).cart == (SimpleCart {
                mirror_type: if data & 1 == 0 {
                    MirrorType::Vertical
                } else {
                    MirrorType::Horizontal
                },
                ..old(self).cart
            }),
    {
        let mt = if data & 1 == 0 {
            MirrorType::Vertical
        } else {
            MirrorType::Horizontal
        };
        self.cart.set_mirror_type(mt);
    }

    /// The scanline counter, clocked once per PPU dot; returns whether it raises an IRQ.
    pub fn tick(&mut self, scanline: u16, cycle: u16, rendering: bool) -> (irq: bool)
        ensures
            ({
                let clocked = cycle == 260 && (scanline <= 239 || scanline >= 261) && rendering;
                &&& !clocked ==> *final(self) == *old(self) && !irq
                &&& clocked && old(self).irq_counter == 0 ==> *final(self) == (Mapper4 {
                    irq_counter: old(self).irq_reload,
                    ..*old(self)
                }) && !irq
                &&& clocked && old(self).irq_counter != 0 ==> *final(self) == (Mapper4 {
                    irq_counter: (old(self).irq_counter - 1) as u8,
                    ..*old(self)
                }) && irq == (old(self).irq_counter == 1 && old(self).irq_enable)
            }),
    {
        if cycle != 260 {
            return false;
        }
        if scanline > 239 && scanline < 261 {
            return false;
        }
        if !rendering {
            return false;
        }
        if self.irq_counter == 0 {
            self.irq_counter = self.irq_reload;
            false
        } else {
            self.irq_counter = self.irq_counter - 1;
            self.irq_counter == 0 && self.irq_enable
        }
    }
}

/// The cartridge's mapper circuit, chosen by the iNES mapper number.
pub enum Mapper {
    M1(Mapper1),
    M2(Mapper2),
    M4(Mapper4),
}

impl Mapper {
    pub open spec fn wf(&self) -> bool {
        match self {
            Mapper::M1(m) => m.wf(),
            Mapper::M2(m) => m.wf(),
            Mapper::M4(m) => m.wf(),
        }
    }

    pub open spec fn cart(&self) -> SimpleCart {
        match self {
            Mapper::M1(m) => m.cart,
            Mapper::M2(m) => m.cart,
            Mapper::M4(m) => m.cart,
        }
    }

    pub open spec fn mirror(&self) -> MirrorType {
        self.cart().mirror_type
    }

    pub open spec fn spec_read(&self, addr: u16) -> u8 {
        match self {
            Mapper::M1(m) => m.spec_read(addr),
            Mapper::M2(m) => m.spec_read(addr),
            Mapper::M4(m) => m.spec_read(addr),
        }
    }

    pub open spec fn write_post(pre: Mapper, post: Mapper, addr: u16, data: u8) -> bool {
        match (pre, post) {
            (Mapper::M1(a), Mapper::M1(b)) => Mapper1::write_post(a, b, addr, data),
            (Mapper::M2(a), Mapper::M2(b)) => Mapper2::write_post(a, b, addr, data),
            (Mapper::M4(a), Mapper::M4(b)) => Mapper4::write_post(a, b, addr, data),
            _ => false,
        }
    }

    /// Whether an iNES mapper number is one this library emulates.
    pub open spec fn supported(id: u8) -> bool {
        id == 0 || id == 1 || id == 2 || id == 4
    }

    /// Builds the mapper for an iNES mapper number; `None` for a number it does not emulate.
    pub fn new(id: u8, cart: SimpleCart) -> (r: Option<Mapper>)
        requires
            cart.wf(),
        ensures
            r.is_some() == Self::supported(id),
            r matches Some(m) ==> m.wf() && m.cart() == cart,
            r matches Some(m) ==> (id == 1 <==> m is M1) && (id == 0 || id == 2 <==> m is M2),
    {
        if id == 0 || id == 2 {
            Some(Mapper::M2(Mapper2::new(cart)))
        } else if id == 1 {
            Some(Mapper::M1(Mapper1::new(cart)))
        } else if id == 4 {
            Some(Mapper::M4(Mapper4::new(cart)))
        } else {
            None
        }
    }

    pub fn read(&self, addr: u16) -> (r: u8)
        requires
            self.wf(),
            mapped(addr),
        ensures
            r == self.spec_read(addr),
    {
        match self {
            Mapper::M1(m) => m.read(addr),
            Mapper::M2(m) => m.read(addr),
            Mapper::M4(m) => m.read(addr),
        }
    }

    pub fn write(&mut self, addr: u16, data: u8)
        requires
            old(self).wf(),
            mapped(addr),
        ensures
            final(self).wf(),
            Self::write_post(*old(self), *final(self), addr, data),
            addr < 0x6000 ==> final(self).mirror() == old(self).mirror(),
    {
        match self {
            Mapper::M1(m) => m.write(addr, data),
            Mapper::M2(m) => m.write(addr, data),
            Mapper::M4(m) => m.write(addr, data),
        }
    }

    /// The per-dot hook; returns whether the mapper raises an IRQ.
    pub fn tick(&mut self, scanline: u16, cycle: u16, rendering: bool) -> (irq: bool)
        requires
            old(self).wf(),
        ensures
            final(self).wf(),
            final(self).cart() == old(self).cart(),
            forall|a: u16| #[trigger] final(self).spec_read(a) == old(self).spec_read(a),
            !(*old(self) is M4) ==> *final(self) == *old(self) && !irq,
            *old(self) matches Mapper::M4(m) ==> (*final(self) matches Mapper::M4(n)
                && irq == (cycle == 260 && (scanline <= 239 || scanline >= 261) && rendering
                && m.irq_counter == 1 && m.irq_enable) && ({
                let clocked = cycle == 260 && (scanline <= 239 || scanline >= 261) && rendering;
                &&& !clocked ==> n == m
                &&& clocked && m.irq_counter == 0 ==> n == (Mapper4 { irq_counter: m.irq_reload, ..m })
                &&& clocked && m.irq_counter != 0 ==> n == (Mapper4 {
                    irq_counter: (m.irq_counter - 1) as u8,
                    ..m
                })
            })),
    {
        match self {
            Mapper::M4(m) => m.tick(scanline, cycle, rendering),
            _ => false,
        }
    }

    pub fn get_mirror_type(&self) -> (r: MirrorType)
        ensures
            r == self.mirror(),
    {
        match self {
            Mapper::M1(m) => m.cart.mirror_type,
            Mapper::M2(m) => m.cart.mirror_type,
            Mapper::M4(m) => m.cart.mirror_type,
        }
    }

    pub fn get_cart(&self) -> (r: &SimpleCart)
        ensures
            *r == self.cart(),
    {
        match self {
            Mapper::M1(m) => &m.cart,
            Mapper::M2(m) => &m.cart,
            Mapper::M4(m) => &m.cart,
        }
    }
}

/// A bank offset in the save format (offsets stay below 2^32 since arrays are at most 16 MB).
pub open spec fn enc_off(x: usize) -> Seq<u8> {
    enc_u32(x as u32)
}

impl Mapper {
    /// The saved form of the bank windows and registers (the cartridge follows).
    pub open spec fn encode_regs(&self) -> Seq<u8> {
        match self {
            Mapper::M1(m) => enc_off(m.prg_banks[0]) + enc_off(m.prg_banks[1]) + enc_off(m.chr_banks[0])
                + enc_off(m.chr_banks[1]) + seq![m.ctl_reg, m.load_reg],
            Mapper::M2(m) => enc_off(m.prg_banks[0]) + enc_off(m.prg_banks[1]) + enc_off(m.chr_bank),
            Mapper::M4(m) => enc_off(m.prg_banks[0]) + enc_off(m.prg_banks[1]) + enc_off(m.prg_banks[2])
                + enc_off(m.prg_banks[3]) + enc_off(m.chr_banks[0]) + enc_off(m.chr_banks[1])
                + enc_off(m.chr_banks[2]) + enc_off(m.chr_banks[3]) + enc_off(m.chr_banks[4])
                + enc_off(m.chr_banks[5]) + enc_off(m.chr_banks[6]) + enc_off(m.chr_banks[7])
                + seq![m.chr_inv, m.prg_mode, m.reg_idx] + m.regs@ + seq![m.irq_reload, m.irq_counter,
                if m.irq_enable { 1u8 } else { 0u8 }],
        }
    }

    pub open spec fn regs_len(&self) -> nat {
        match self {
            Mapper::M1(_) => 18,
            Mapper::M2(_) => 12,
            Mapper::M4(_) => 62,
        }
    }

    /// The saved form of the mapper: bank windows and registers, then the cartridge.
    pub open spec fn encode(&self) -> Seq<u8> {
        self.encode_regs() + self.cart().encode()
    }

    pub fn save(&self, out: &mut Vec<u8>)
        requires
            self.wf(),
        ensures
            final(out)@ == old(out)@ + self.encode(),
    {
        match self {
            Mapper::M1(m) => {
                put_u32(out, m.prg_banks[0] as u32);
                put_u32(out, m.prg_banks[1] as u32);
                put_u32(out, m.chr_banks[0] as u32);
                put_u32(out, m.chr_banks[1] as u32);
                put_u8(out, m.ctl_reg);
                put_u8(out, m.load_reg);
                m.cart.save(out);
            },
            Mapper::M2(m) => {
                put_u32(out, m.prg_banks[0] as u32);
                put_u32(out, m.prg_banks[1] as u32);
                put_u32(out, m.chr_bank as u32);
                m.cart.save(out);
            },
            Mapper::M4(m) => {
                let mut i: usize = 0;
                while i < 4
                    invariant
                        0 <= i <= 4,
                        out@ == old(out)@ + Seq::new(4 * i as nat, |k: int| enc_off(m.prg_banks[k / 4])[k % 4]),
                    decreases 4 - i,
                {
                    put_u32(out, m.prg_banks[i] as u32);
                    i = i + 1;
                    assert(Seq::new(4 * i as nat, |k: int| enc_off(m.prg_banks[k / 4])[k % 4]) =~= Seq::new(4 * (i - 1) as nat, |k: int| enc_off(m.prg_banks[k / 4])[k % 4]) + enc_off(m.prg_banks[i - 1]));
                }
                let mut j: usize = 0;
                while j < 8
                    invariant
                        0 <= j <= 8,
                        out@ == old(out)@ + Seq::new(16, |k: int| enc_off(m.prg_banks[k / 4])[k % 4]) + Seq::new(4 * j as nat, |k: int| enc_off(m.chr_banks[k / 4])[k % 4]),
                    decreases 8 - j,
                {
                    put_u32(out, m.chr_banks[j] as u32);
                    j = j + 1;
                    assert(Seq::new(4 * j as nat, |k: int| enc_off(m.chr_banks[k / 4])[k % 4]) =~= Seq::new(4 * (j - 1) as nat, |k: int| enc_off(m.chr_banks[k / 4])[k % 4]) + enc_off(m.chr_banks[j - 1]));
                }
                put_u8(out, m.chr_inv);
                put_u8(out, m.prg_mode);
                put_u8(out, m.reg_idx);
                let mut r: usize = 0;
                while r < 8
                    invariant
                        0 <= r <= 8,
                        out@ == old(out)@ + Seq::new(16, |k: int| enc_off(m.prg_banks[k / 4])[k % 4]) + Seq::new(32, |k: int| enc_off(m.chr_banks[k / 4])[k % 4]) + seq![m.chr_inv, m.prg_mode, m.reg_idx] + m.regs@.subrange(0, r as int),
                    decreases 8 - r,
                {
                    put_u8(out, m.regs[r]);
                    r = r + 1;
                    assert(m.regs@.subrange(0, r as int) =~= m.regs@.subrange(0, r - 1) + seq![m.regs@[r - 1]]);
                }
                put_u8(out, m.irq_reload);
                put_u8(out, m.irq_counter);
                put_u8(out, if m.irq_enable { 1u8 } else { 0u8 });
                m.cart.save(out);
                assert(m.regs@.subrange(0, 8) =~= m.regs@);
                assert(Seq::new(16, |k: int| enc_off(m.prg_banks[k / 4])[k % 4]) =~= enc_off(m.prg_banks[0]) + enc_off(m.prg_banks[1]) + enc_off(m.prg_banks[2]) + enc_off(m.prg_banks[3]));
                assert(Seq::new(32, |k: int| enc_off(m.chr_banks[k / 4])[k % 4]) =~= enc_off(m.chr_banks[0]) + enc_off(m.chr_banks[1]) + enc_off(m.chr_banks[2]) + enc_off(m.chr_banks[3]) + enc_off(m.chr_banks[4]) + enc_off(m.chr_banks[5]) + enc_off(m.chr_banks[6]) + enc_off(m.chr_banks[7]));
            },
        }
        assert(final(out)@ =~= old(out)@ + self.encode());
    }
}

/// Whether the saved offset at `at` leaves room for a window of `size` bytes in `limit`.
pub open spec fn off_ok(b: Seq<u8>, at: int, limit: int, size: int) -> bool {
    dec_u32(b, at) as int + size <= limit
}

impl Mapper {
    /// Whether `b` holds at `pos` a mapper state this mapper accepts: enough bytes, windows
    /// inside the cartridge's arrays, known mirroring and register codes.
    pub open spec fn can_load(&self, b: Seq<u8>, pos: int) -> bool {
        let rl = self.regs_len() as int;
        let plen = self.cart().prg_rom@.len() as int;
        let clen = self.cart().chr_rom@.len() as int;
        &&& pos + rl + 1 + SRAM_SIZE + clen <= b.len()
        &&& mirror_of_code(b[pos + rl]) is Some
        &&& match self {
            Mapper::M1(_) => off_ok(b, pos, plen, 0x4000) && off_ok(b, pos + 4, plen, 0x4000)
                && off_ok(b, pos + 8, clen, 0x1000) && off_ok(b, pos + 12, clen, 0x1000),
            Mapper::M2(_) => off_ok(b, pos, plen, 0x4000) && off_ok(b, pos + 4, plen, 0x4000)
                && off_ok(b, pos + 8, clen, 0x2000),
            Mapper::M4(_) => off_ok(b, pos, plen, 0x2000) && off_ok(b, pos + 4, plen, 0x2000)
                && off_ok(b, pos + 8, plen, 0x2000) && off_ok(b, pos + 12, plen, 0x2000) && off_ok(
                b, pos + 16, clen, 0x400) && off_ok(b, pos + 20, clen, 0x400) && off_ok(b, pos + 24,
                clen, 0x400) && off_ok(b, pos + 28, clen, 0x400) && off_ok(b, pos + 32, clen, 0x400)
                && off_ok(b, pos + 36, clen, 0x400) && off_ok(b, pos + 40, clen, 0x400) && off_ok(
                b, pos + 44, clen, 0x400) && b[pos + 50] < 8,
        }
    }

    /// Restores the bank windows, registers and cartridge state saved at `pos` into this
    /// mapper (same kind, same cartridge sizes); refuses, changing nothing, when the bytes run
    /// short, a window falls outside its array, or a code is unknown.
    pub fn load(&mut self, buf: &Vec<u8>, pos: usize) -> (ok: bool)
        requires
            old(self).wf(),
        ensures
            final(self).wf(),
            ok == old(self).can_load(buf@, pos as int),
            !ok ==> *final(self) == *old(self),
            ok ==> final(self).cart().prg_rom@ == old(self).cart().prg_rom@,
            ok ==> final(self).cart().encode() == buf@.subrange(
                pos + old(self).regs_len(),
                pos + old(self).regs_len() + 1 + SRAM_SIZE + old(self).cart().chr_rom@.len(),
            ),
            ok ==> match (*old(self), *final(self)) {
                (Mapper::M1(_), Mapper::M1(m)) => m.prg_banks[0] == dec_u32(buf@, pos as int) as usize
                    && m.prg_banks[1] == dec_u32(buf@, pos + 4) as usize && m.chr_banks[0] == dec_u32(
                    buf@, pos + 8) as usize && m.chr_banks[1] == dec_u32(buf@, pos + 12) as usize
                    && m.ctl_reg == buf@[pos + 16] && m.load_reg == buf@[pos + 17],
                (Mapper::M2(_), Mapper::M2(m)) => m.prg_banks[0] == dec_u32(buf@, pos as int) as usize
                    && m.prg_banks[1] == dec_u32(buf@, pos + 4) as usize && m.chr_bank == dec_u32(
                    buf@, pos + 8) as usize,
                (Mapper::M4(_), Mapper::M4(m)) => (forall|k: int| 0 <= k < 4 ==> m.prg_banks[k]
                    == dec_u32(buf@, pos + 4 * k) as usize) && (forall|k: int| 0 <= k < 8 ==> m.chr_banks[k]
                    == dec_u32(buf@, pos + 16 + 4 * k) as usize) && m.chr_inv == buf@[pos + 48]
                    && m.prg_mode == buf@[pos + 49] && m.reg_idx == buf@[pos + 50] && m.regs@
                    == buf@.subrange(pos + 51, pos + 59) && m.irq_reload == buf@[pos + 59]
                    && m.irq_counter == buf@[pos + 60] && m.irq_enable == (buf@[pos + 61] != 0),
                _ => false,
            },
    {
        let cart_len = 1 + SRAM_SIZE + self.get_cart().chr_rom.len();
        let rl: usize = match self {
            Mapper::M1(_) => 18,
            Mapper::M2(_) => 12,
            Mapper::M4(_) => 62,
        };
        if buf.len() < rl + cart_len || pos > buf.len() - (rl + cart_len) {
            return false;
        }
        if mirror_of_code_exec_m(buf[pos + rl]).is_none() {
            return false;
        }
        match self {
            Mapper::M1(m) => {
                let plen = m.cart.prg_rom.len();
                let clen = m.cart.chr_rom.len();
                let p0 = match offset_at(buf, pos, plen, 0x4000) { Some(v) => v, None => { return false; } };
                let p1 = match offset_at(buf, pos + 4, plen, 0x4000) { Some(v) => v, None => { return false; } };
                let c0 = match offset_at(buf, pos + 8, clen, 0x1000) { Some(v) => v, None => { return false; } };
                let c1 = match offset_at(buf, pos + 12, clen, 0x1000) { Some(v) => v, None => { return false; } };
                m.prg_banks = [p0, p1];
                m.chr_banks = [c0, c1];
                m.ctl_reg = get_u8(buf, pos + 16);
                m.load_reg = get_u8(buf, pos + 17);
                let _ = m.cart.load(buf, pos + 18);
            },
            Mapper::M2(m) => {
                let plen = m.cart.prg_rom.len();
                let clen = m.cart.chr_rom.len();
                let p0 = match offset_at(buf, pos, plen, 0x4000) { Some(v) => v, None => { return false; } };
                let p1 = match offset_at(buf, pos + 4, plen, 0x4000) { Some(v) => v, None => { return false; } };
                let c0 = match offset_at(buf, pos + 8, clen, 0x2000) { Some(v) => v, None => { return false; } };
                m.prg_banks = [p0, p1];
                m.chr_bank = c0;
                let _ = m.cart.load(buf, pos + 12);
            },
            Mapper::M4(m) => {
                let plen = m.cart.prg_rom.len();
                let clen = m.cart.chr_rom.len();
                let p0 = match offset_at(buf, pos, plen, 0x2000) { Some(v) => v, None => { return false; } };
                let p1 = match offset_at(buf, pos + 4, plen, 0x2000) { Some(v) => v, None => { return false; } };
                let p2 = match offset_at(buf, pos + 8, plen, 0x2000) { Some(v) => v, None => { return false; } };
                let p3 = match offset_at(buf, pos + 12, plen, 0x2000) { Some(v) => v, None => { return false; } };
                let c0 = match offset_at(buf, pos + 16, clen, 0x400) { Some(v) => v, None => { return false; } };
                let c1 = match offset_at(buf, pos + 20, clen, 0x400) { Some(v) => v, None => { return false; } };
                let c2 = match offset_at(buf, pos + 24, clen, 0x400) { Some(v) => v, None => { return false; } };
                let c3 = match offset_at(buf, pos + 28, clen, 0x400) { Some(v) => v, None => { return false; } };
                let c4 = match offset_at(buf, pos + 32, clen, 0x400) { Some(v) => v, None => { return false; } };
                let c5 = match offset_at(buf, pos + 36, clen, 0x400) { Some(v) => v, None => { return false; } };
                let c6 = match offset_at(buf, pos + 40, clen, 0x400) { Some(v) => v, None => { return false; } };
                let c7 = match offset_at(buf, pos + 44, clen, 0x400) { Some(v) => v, None => { return false; } };
                let reg_idx = get_u8(buf, pos + 50);
                if reg_idx >= 8 {
                    return false;
                }
                m.prg_banks = [p0, p1, p2, p3];
                m.chr_banks = [c0, c1, c2, c3, c4, c5, c6, c7];
                assert(forall|i: int| 0 <= i < 4 ==> m.prg_banks[i] + 0x2000 <= plen);
                assert(forall|i: int| 0 <= i < 8 ==> m.chr_banks[i] + 0x400 <= clen);
                m.chr_inv = get_u8(buf, pos + 48);
                m.prg_mode = get_u8(buf, pos + 49);
                m.reg_idx = reg_idx;
                m.regs = [
                    get_u8(buf, pos + 51),
                    get_u8(buf, pos + 52),
                    get_u8(buf, pos + 53),
                    get_u8(buf, pos + 54),
                    get_u8(buf, pos + 55),
                    get_u8(buf, pos + 56),
                    get_u8(buf, pos + 57),
                    get_u8(buf, pos + 58),
                ];
                assert(m.regs@ =~= buf@.subrange(pos + 51, pos + 59));
                m.irq_reload = get_u8(buf, pos + 59);
                m.irq_counter = get_u8(buf, pos + 60);
                m.irq_enable = get_u8(buf, pos + 61) != 0;
                let _ = m.cart.load(buf, pos + 62);
            },
        }
        true
    }
}

/// A saved bank offset at `at`, accepted only when a window of `size` bytes from it fits in an
/// array of `limit` bytes.
fn offset_at(buf: &Vec<u8>, at: usize, limit: usize, size: usize) -> (r: Option<usize>)
    requires
        at + 4 <= buf@.len(),
    ensures
        r matches Some(v) ==> v == dec_u32(buf@, at as int) as usize && v + size <= limit,
        r is Some <==> dec_u32(buf@, at as int) as int + size <= limit,
{
    let v = get_u32(buf, at) as usize;
    if v > limit || limit - v < size {
        None
    } else {
        Some(v)
    }
}

fn mirror_of_code_exec_m(c: u8) -> (r: Option<MirrorType>)
    ensures
        r == mirror_of_code(c),
{
    crate::cartridge::mirror_of_code_exec(c)
}

impl Mapper {
    /// Restores the cartridge's battery-backed SRAM from `pos`.
    pub fn load_sram(&mut self, buf: &Vec<u8>, pos: usize) -> (ok: bool)
        requires
            old(self).wf(),
        ensures
            final(self).wf(),
            ok == (pos + SRAM_SIZE <= buf@.len()),
            ok ==> final(self).cart().sram@ == buf@.subrange(pos as int, pos + SRAM_SIZE),
            !ok ==> *final(self) == *old(self),
    {
        match self {
            Mapper::M1(m) => m.cart.load_sram(buf, pos),
            Mapper::M2(m) => m.cart.load_sram(buf, pos),
            Mapper::M4(m) => m.cart.load_sram(buf, pos),
        }
    }
}

} // verus!
