use vstd::prelude::*;

verus! {

/// The host's input: a bitmask of the buttons now held (A, B, Select, Start, Up, Down, Left,
/// Right from bit 0 to bit 7).
pub trait InputPoller {
    fn poll(&self) -> u8;
}

pub const BUTTON_A: u8 = 1;
pub const BUTTON_B: u8 = 2;
pub const BUTTON_SELECT: u8 = 4;
pub const BUTTON_START: u8 = 8;
pub const BUTTON_UP: u8 = 16;
pub const BUTTON_DOWN: u8 = 32;
pub const BUTTON_LEFT: u8 = 64;
pub const BUTTON_RIGHT: u8 = 128;

/// The standard joystick: a strobe latch and an 8-bit shift register of button states.
pub struct Joystick {
    pub strobe: bool,
    pub reg: u8,
}

impl Joystick {
    pub fn new() -> (r: Self)
        ensures
            !r.strobe,
            r.reg == 0,
    {
        Joystick { strobe: false, reg: 0 }
    }

    /// A read of 0x4016/0x4017: while strobed the current A button; otherwise the next bit
    /// shifted out of the latched buttons.
    pub fn read<P: InputPoller>(&mut self, poller: &P) -> (r: u8)
        ensures
            final(self).strobe == old(self).strobe,
            r == final(self).reg & 1 || !old(self).strobe,
            !old(self).strobe ==> r == old(self).reg & 1 && final(self).reg == old(self).reg >> 1,
            r <= 1,
    {
        if self.strobe {
            self.reg = poller.poll();
            let r = self.reg & 1;
            proof {
                crate::utils::lemma_byte_fields(self.reg);
            }
            r
        } else {
            let old_reg = self.reg;
            self.reg = old_reg >> 1;
            proof {
                crate::utils::lemma_byte_fields(old_reg);
            }
            old_reg & 1
        }
    }

    /// A write of 0x4016: bit 0 sets the strobe; while it is set the buttons are latched.
    pub fn write<P: InputPoller>(&mut self, poller: &P, data: u8)
        ensures
            final(self).strobe == (data & 1 == 1),
            !final(self).strobe ==> final(self).reg == old(self).reg,
    {
        self.strobe = data & 1 == 1;
        if self.strobe {
            self.reg = poller.poll();
        }
    }
}

} // verus!
