use vstd::prelude::*;
use crate::utils::{put_bytes, get_bytes};

verus! {

/// How the four logical nametables fold onto physical nametable memory.
#[derive(Copy, Clone, Debug, PartialEq, Eq, Structural)]
pub enum MirrorType {
    Horizontal,
    Vertical,
    Single0,
    Single1,
    Four,
}

/// The arrays a cartridge holds.
#[derive(Copy, Clone, Debug, PartialEq, Eq, Structural)]
pub enum BankType {
    /// program rom
    PrgRom,
    /// pattern rom (or ram)
    ChrRom,
    /// save ram
    Sram,
}

pub const PRG_BANK_SIZE: usize = 0x4000;
pub const CHR_BANK_SIZE: usize = 0x2000;
pub const SRAM_SIZE: usize = 0x2000;
/// Largest PRG or CHR array accepted, far above what an iNES header can describe.
pub const MAX_ROM_SIZE: usize = 0x0100_0000;

/// A cartridge: PRG ROM, CHR ROM (or RAM), battery-backed SRAM and the current mirroring.
pub struct SimpleCart {
    pub chr_rom: Vec<u8>,
    pub prg_rom: Vec<u8>,
    pub sram: Vec<u8>,
    pub mirror_type: MirrorType,
}

impl SimpleCart {
    /// Sizes every mapper relies on: whole 16 KB PRG banks, whole 8 KB CHR banks, 8 KB SRAM.
    pub open spec fn wf(&self) -> bool {
        &&& self.prg_rom@.len() >= PRG_BANK_SIZE
        &&& self.prg_rom@.len() as int % (PRG_BANK_SIZE as int) == 0
        &&& self.prg_rom@.len() <= MAX_ROM_SIZE
        &&& self.chr_rom@.len() >= CHR_BANK_SIZE
        &&& self.chr_rom@.len() as int % (CHR_BANK_SIZE as int) == 0
        &&& self.chr_rom@.len() <= MAX_ROM_SIZE
        &&& self.sram@.len() == SRAM_SIZE
    }

    pub fn new(chr_rom: Vec<u8>, prg_rom: Vec<u8>, sram: Vec<u8>, mirror_type: MirrorType) -> (r:
        Self)
        ensures
            r.chr_rom@ == chr_rom@,
            r.prg_rom@ == prg_rom@,
            r.sram@ == sram@,
            r.mirror_type == mirror_type,
    {
        SimpleCart { chr_rom, prg_rom, sram, mirror_type }
    }

    pub fn get_size(&self, kind: BankType) -> (r: usize)
        ensures
            kind == BankType::PrgRom ==> r == self.prg_rom@.len(),
            kind == BankType::ChrRom ==> r == self.chr_rom@.len(),
            kind == BankType::Sram ==> r == self.sram@.len(),
    {
        match kind {
            BankType::PrgRom => self.prg_rom.len(),
            BankType::ChrRom => self.chr_rom.len(),
            BankType::Sram => self.sram.len(),
        }
    }

    pub fn get_mirror_type(&self) -> (r: MirrorType)
        ensures
            r == self.mirror_type,
    {
        self.mirror_type
    }

    pub fn set_mirror_type(&mut self, mt: MirrorType)
        ensures
            *final(self) == (SimpleCart { mirror_type: mt, ..*old(self) }),
    {
        self.mirror_type = mt;
    }
}

/// The saved code of a mirroring mode.
pub open spec fn mirror_code(mt: MirrorType) -> u8 {
    match mt {
        MirrorType::Horizontal => 0,
        MirrorType::Vertical => 1,
        MirrorType::Single0 => 2,
        MirrorType::Single1 => 3,
        MirrorType::Four => 4,
    }
}

pub open spec fn mirror_of_code(c: u8) -> Option<MirrorType> {
    if c == 0 {
        Some(MirrorType::Horizontal)
    } else if c == 1 {
        Some(MirrorType::Vertical)
    } else if c == 2 {
        Some(MirrorType::Single0)
    } else if c == 3 {
        Some(MirrorType::Single1)
    } else if c == 4 {
        Some(MirrorType::Four)
    } else {
        None
    }
}

pub fn mirror_code_exec(mt: MirrorType) -> (r: u8)
    ensures
        r == mirror_code(mt),
        mirror_of_code(r) == Some(mt),
{
    match mt {
        MirrorType::Horizontal => 0,
        MirrorType::Vertical => 1,
        MirrorType::Single0 => 2,
        MirrorType::Single1 => 3,
        MirrorType::Four => 4,
    }
}

pub fn mirror_of_code_exec(c: u8) -> (r: Option<MirrorType>)
    ensures
        r == mirror_of_code(c),
{
    if c == 0 {
        Some(MirrorType::Horizontal)
    } else if c == 1 {
        Some(MirrorType::Vertical)
    } else if c == 2 {
        Some(MirrorType::Single0)
    } else if c == 3 {
        Some(MirrorType::Single1)
    } else if c == 4 {
        Some(MirrorType::Four)
    } else {
        None
    }
}

impl SimpleCart {
    /// The saved form of the cartridge's writable state: mirroring, SRAM, then CHR.
    pub open spec fn encode(&self) -> Seq<u8> {
        seq![mirror_code(self.mirror_type)] + self.sram@ + self.chr_rom@
    }

    /// Battery-backed save: the 8 KB of SRAM.
    pub fn save_sram(&self, out: &mut Vec<u8>)
        ensures
            final(out)@ == old(out)@ + self.sram@,
    {
        put_bytes(out, &self.sram);
    }

    /// Restores SRAM from `pos`; refuses (changing nothing) when fewer than 8 KB remain.
    pub fn load_sram(&mut self, buf: &Vec<u8>, pos: usize) -> (ok: bool)
        requires
            old(self).wf(),
        ensures
            final(self).wf(),
            ok == (pos + SRAM_SIZE <= buf@.len()),
            ok ==> final(self).sram@ == buf@.subrange(pos as int, pos + SRAM_SIZE),
            ok ==> final(self).prg_rom@ == old(self).prg_rom@ && final(self).chr_rom@
                == old(self).chr_rom@ && final(self).mirror_type == old(self).mirror_type,
            !ok ==> *final(self) == *old(self),
    {
        if buf.len() < SRAM_SIZE || pos > buf.len() - SRAM_SIZE {
            return false;
        }
        self.sram = get_bytes(buf, pos, SRAM_SIZE);
        true
    }

    pub fn save(&self, out: &mut Vec<u8>)
        ensures
            final(out)@ == old(out)@ + self.encode(),
    {
        out.push(mirror_code_exec(self.mirror_type));
        put_bytes(out, &self.sram);
        put_bytes(out, &self.chr_rom);
        assert(final(out)@ =~= old(out)@ + self.encode());
    }

    /// Restores mirroring, SRAM and CHR saved at `pos` for a cartridge of this CHR size;
    /// returns the position after them, or `None` (changing nothing) when the bytes run short
    /// or the mirroring code is unknown.
    pub fn load(&mut self, buf: &Vec<u8>, pos: usize) -> (r: Option<usize>)
        requires
            old(self).wf(),
        ensures
            final(self).wf(),
            r is Some <==> pos + 1 + SRAM_SIZE + old(self).chr_rom@.len() <= buf@.len()
                && mirror_of_code(buf@[pos as int]) is Some,
            r matches Some(end) ==> end == pos + 1 + SRAM_SIZE + old(self).chr_rom@.len()
                && final(self).encode() == buf@.subrange(pos as int, end as int)
                && final(self).prg_rom@ == old(self).prg_rom@
                && final(self).chr_rom@.len() == old(self).chr_rom@.len(),
            r is None ==> *final(self) == *old(self),
    {
        let n = self.chr_rom.len();
        if buf.len() < 1 + SRAM_SIZE + n || pos > buf.len() - (1 + SRAM_SIZE + n) {
            return None;
        }
        let mt = match mirror_of_code_exec(buf[pos]) {
            Some(m) => m,
            None => {
                return None;
            },
        };
        let sram = get_bytes(buf, pos + 1, SRAM_SIZE);
        let chr = get_bytes(buf, pos + 1 + SRAM_SIZE, n);
        self.mirror_type = mt;
        self.sram = sram;
        self.chr_rom = chr;
        proof {
            lemma_mirror_code_round_trip(buf@[pos as int]);
            assert(self.encode() =~= buf@.subrange(pos as int, pos + 1 + SRAM_SIZE + n));
        }
        Some(pos + 1 + SRAM_SIZE + n)
    }
}

proof fn lemma_mirror_code_round_trip(c: u8)
    ensures
        mirror_of_code(c) matches Some(m) ==> mirror_code(m) == c,
{
}

/// Round trip: a cartridge restored from what `save` wrote holds the same mirroring, SRAM and
/// CHR.
pub proof fn lemma_cart_round_trip(s: SimpleCart, t: SimpleCart)
    requires
        t.chr_rom@.len() == s.chr_rom@.len(),
        t.sram@.len() == s.sram@.len(),
        t.encode() == s.encode(),
    ensures
        t.mirror_type == s.mirror_type,
        t.sram@ == s.sram@,
        t.chr_rom@ == s.chr_rom@,
{
    let a = t.encode();
    let b = s.encode();
    assert(a[0] == mirror_code(t.mirror_type) && b[0] == mirror_code(s.mirror_type));
    assert(mirror_of_code(mirror_code(t.mirror_type)) == Some(t.mirror_type));
    assert(mirror_of_code(mirror_code(s.mirror_type)) == Some(s.mirror_type));
    assert(t.sram@ =~= a.subrange(1, 1 + t.sram@.len() as int));
    assert(s.sram@ =~= b.subrange(1, 1 + s.sram@.len() as int));
    assert(t.chr_rom@ =~= a.subrange(1 + t.sram@.len() as int, a.len() as int));
    assert(s.chr_rom@ =~= b.subrange(1 + s.sram@.len() as int, b.len() as int));
}

} // verus!
