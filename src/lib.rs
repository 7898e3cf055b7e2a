// A cycle-accurate NES emulator core: the 6502 CPU, the PPU, the APU, cartridge mappers and
// the bus that clocks them in lockstep, with save and load of the whole machine state.
pub mod utils;
pub mod cartridge;
pub mod mapper;
pub mod memory;
pub mod controller;
pub mod ppu;
pub mod apu;
pub mod mos6502;
pub mod ines;
