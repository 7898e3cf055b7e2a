use vstd::prelude::*;
use crate::cartridge::{MirrorType, SimpleCart, SRAM_SIZE};
use crate::mapper::Mapper;
use crate::utils::get_bytes;

verus! {

/// Why an iNES image was refused.
#[derive(Copy, Clone, Debug, PartialEq, Eq, Structural)]
pub enum InesError {
    /// shorter than the 16-byte header
    TooShort,
    /// the header does not start with "NES\x1a"
    BadMagic,
    /// the header announces no PRG ROM
    NoPrg,
    /// the file ends before the trainer, PRG and CHR it announces
    Truncated,
    /// a mapper number this library does not emulate
    UnsupportedMapper(u8),
}

/// The parts of an iNES image the emulator needs.
pub struct Rom {
    pub prg: Vec<u8>,
    /// CHR ROM, or 8 KB of zeroed CHR RAM when the header announces none
    pub chr: Vec<u8>,
    pub mirror: MirrorType,
    pub mapper_id: u8,
}

/// Mirroring from flags 6: bit 0 and bit 3 together.
pub open spec fn ines_mirror(flags6: u8) -> MirrorType {
    let m = ((flags6 >> 2u8) & 2) | (flags6 & 1);
    if m == 0 {
        MirrorType::Horizontal
    } else if m == 1 {
        MirrorType::Vertical
    } else if m == 2 {
        MirrorType::Single0
    } else {
        MirrorType::Single1
    }
}

pub open spec fn ines_mapper_id(flags6: u8, flags7: u8) -> u8 {
    (flags7 & 0xf0) | (flags6 >> 4u8)
}

pub open spec fn has_magic(d: Seq<u8>) -> bool {
    d[0] == 0x4e && d[1] == 0x45 && d[2] == 0x53 && d[3] == 0x1a
}

/// Where PRG ROM starts: after the header and the 512-byte trainer when flags 6 bit 2 is set.
pub open spec fn prg_start(flags6: u8) -> int {
    if flags6 & 4 == 4 {
        528int
    } else {
        16
    }
}

pub fn parse_ines(data: &Vec<u8>) -> (r: Result<Rom, InesError>)
    ensures
        data@.len() < 16 <==> r == Err::<Rom, InesError>(InesError::TooShort),
        data@.len() >= 16 && !has_magic(data@) <==> r == Err::<Rom, InesError>(InesError::BadMagic),
        data@.len() >= 16 && has_magic(data@) && data@[4] == 0 <==> r == Err::<Rom, InesError>(
            InesError::NoPrg),
        data@.len() >= 16 ==> ({
            let p = prg_start(data@[6]);
            let prg_len = data@[4] as int * 0x4000;
            let chr_len = data@[5] as int * 0x2000;
            &&& has_magic(data@) && data@[4] != 0 && data@.len() < p + prg_len + chr_len <==> r
                == Err::<Rom, InesError>(InesError::Truncated)
            &&& r matches Ok(rom) ==> {
                &&& rom.prg@ == data@.subrange(p, p + prg_len)
                &&& chr_len > 0 ==> rom.chr@ == data@.subrange(p + prg_len, p + prg_len + chr_len)
                &&& chr_len == 0 ==> rom.chr@ == Seq::new(0x2000, |i: int| 0u8)
                &&& rom.mirror == ines_mirror(data@[6])
                &&& rom.mapper_id == ines_mapper_id(data@[6], data@[7])
            }
        }),
        !(r matches Err(InesError::UnsupportedMapper(_))),
{
    if data.len() < 16 {
        return Err(InesError::TooShort);
    }
    if !(data[0] == 0x4e && data[1] == 0x45 && data[2] == 0x53 && data[3] == 0x1a) {
        return Err(InesError::BadMagic);
    }
    if data[4] == 0 {
        return Err(InesError::NoPrg);
    }
    let flags6 = data[6];
    let flags7 = data[7];
    let start: usize = if flags6 & 4 == 4 { 16 + 512 } else { 16 };
    let prg_len = data[4] as usize * 0x4000;
    let chr_len = data[5] as usize * 0x2000;
    if data.len() < start + prg_len + chr_len {
        return Err(InesError::Truncated);
    }
    let prg = get_bytes(data, start, prg_len);
    let chr = if chr_len > 0 {
        get_bytes(data, start + prg_len, chr_len)
    } else {
        let v = vec![0u8; 0x2000];
        assert(v@ =~= Seq::new(0x2000, |i: int| 0u8));
        v
    };
    let m = ((flags6 >> 2u8) & 2) | (flags6 & 1);
    let mirror = if m == 0 {
        MirrorType::Horizontal
    } else if m == 1 {
        MirrorType::Vertical
    } else if m == 2 {
        MirrorType::Single0
    } else {
        MirrorType::Single1
    };
    Ok(Rom { prg, chr, mirror, mapper_id: (flags7 & 0xf0) | (flags6 >> 4u8) })
}

/// Builds the cartridge and mapper of a parsed image, with 8 KB of zeroed SRAM.
pub fn load_rom(rom: Rom) -> (r: Result<Mapper, InesError>)
    requires
        rom.prg@.len() >= 0x4000,
        rom.prg@.len() % 0x4000 == 0,
        rom.prg@.len() <= 255 * 0x4000,
        rom.chr@.len() >= 0x2000,
        rom.chr@.len() % 0x2000 == 0,
        rom.chr@.len() <= 255 * 0x2000,
    ensures
        !Mapper::supported(rom.mapper_id) <==> r == Err::<Mapper, InesError>(
            InesError::UnsupportedMapper(rom.mapper_id)),
        Mapper::supported(rom.mapper_id) ==> r is Ok,
        r matches Ok(m) ==> m.wf() && m.cart().prg_rom@ == rom.prg@ && m.cart().chr_rom@ == rom.chr@
            && m.mirror() == rom.mirror,
{
    let id = rom.mapper_id;
    if !(id == 0 || id == 1 || id == 2 || id == 4) {
        return Err(InesError::UnsupportedMapper(id));
    }
    let cart = SimpleCart::new(rom.chr, rom.prg, vec![0u8; SRAM_SIZE], rom.mirror);
    match Mapper::new(id, cart) {
        Some(m) => Ok(m),
        None => Err(InesError::UnsupportedMapper(id)),
    }
}

/// Parses an iNES image and builds its mapper.
pub fn load_ines(data: &Vec<u8>) -> (r: Result<Mapper, InesError>)
    ensures
        r matches Ok(m) ==> m.wf(),
        parse_ines_fails(data@) ==> r is Err && !(r matches Err(InesError::UnsupportedMapper(_))),
        !parse_ines_fails(data@) ==> (r == Err::<Mapper, InesError>(InesError::UnsupportedMapper(
            ines_mapper_id(data@[6], data@[7]))) <==> !Mapper::supported(ines_mapper_id(data@[6],
            data@[7]))),
        !parse_ines_fails(data@) && Mapper::supported(ines_mapper_id(data@[6], data@[7])) ==> r is Ok,
{
    match parse_ines(data) {
        Ok(rom) => load_rom(rom),
        Err(e) => Err(e),
    }
}

/// Whether the header or length alone refuse an image.
pub open spec fn parse_ines_fails(d: Seq<u8>) -> bool {
    d.len() < 16 || !has_magic(d) || d[4] == 0 || d.len() < prg_start(d[6]) + d[4] as int * 0x4000
        + d[5] as int * 0x2000
}

} // verus!
