use vstd::prelude::*;
use crate::mapper::Mapper;
use crate::utils::{
    Sampler, put_u8, put_bool, put_u16, put_u32, get_u8, get_bool, get_u16, get_u32, enc_bool, enc_u16,
    enc_u32, dec_bool, dec_u16, dec_u32, lemma_dec_u8, lemma_dec_bool, lemma_dec_u16, lemma_dec_i16,
    lemma_dec_i32, lemma_sampler_unique, lemma_sampler_decodes_own,
};

verus! {

/// The host's audio sink; `queue` may block to pace the emulator.
pub trait Speaker {
    fn queue(&mut self, sample: i16);
}

pub const CPU_FREQ: u32 = 1789773;
pub const QUARTER_FRAME_FREQ: u32 = 240;
pub const AUDIO_SAMPLE_FREQ: u32 = 44100;
pub const AUDIO_LEVEL_MAX: i32 = 32768;
/// Low-pass coefficient (0.815686 of full scale).
pub const LP_FACTOR: i32 = 26728;
/// High-pass coefficients (0.996039 and 0.999835 of full scale).
pub const HP_FACTOR1: i32 = 32638;
pub const HP_FACTOR2: i32 = 32762;

pub const TRI_SEQ_TABLE: [u8; 32] = [
    15, 14, 13, 12, 11, 10, 9, 8, 7, 6, 5, 4, 3, 2, 1, 0, 0, 1, 2, 3, 4, 5, 6, 7, 8, 9, 10, 11, 12,
    13, 14, 15,
];

pub const LEN_TABLE: [u8; 32] = [
    10, 254, 20, 2, 40, 4, 80, 6, 160, 8, 60, 10, 14, 12, 26, 14, 12, 16, 24, 18, 48, 20, 96, 22,
    192, 24, 72, 26, 16, 28, 32, 30,
];

pub const DUTY_TABLE: [u8; 4] = [0b00000010, 0b00000110, 0b00011110, 0b11111001];

pub const PULSE_TABLE: [u16; 31] = [
    0x0000, 0x02f8, 0x05df, 0x08b4, 0x0b78, 0x0e2b, 0x10cf, 0x1363, 0x15e9, 0x1860, 0x1ac9, 0x1d25,
    0x1f75, 0x21b7, 0x23ee, 0x2618, 0x2837, 0x2a4c, 0x2c55, 0x2e54, 0x3049, 0x3234, 0x3416, 0x35ee,
    0x37be, 0x3985, 0x3b43, 0x3cf9, 0x3ea7, 0x404d, 0x41ec,
];

pub const NOISE_PERIOD_TABLE: [u16; 16] = [
    4, 8, 16, 32, 64, 96, 128, 160, 202, 254, 380, 508, 762, 1016, 2034, 4068,
];

pub const DMC_TABLE: [u16; 16] = [
    214, 190, 170, 160, 143, 127, 113, 107, 95, 80, 71, 64, 53, 42, 36, 27,
];

pub const TND_TABLE: [u16; 203] = [
    0x0000, 0x01b7, 0x036a, 0x051a, 0x06c6, 0x086f, 0x0a15, 0x0bb7, 0x0d56, 0x0ef2, 0x108a, 0x121f,
    0x13b1, 0x1540, 0x16cc, 0x1855, 0x19da, 0x1b5d, 0x1cdd, 0x1e59, 0x1fd3, 0x214a, 0x22be, 0x2430,
    0x259e, 0x270a, 0x2874, 0x29da, 0x2b3e, 0x2c9f, 0x2dfe, 0x2f5a, 0x30b4, 0x320b, 0x335f, 0x34b2,
    0x3601, 0x374f, 0x389a, 0x39e2, 0x3b29, 0x3c6d, 0x3dae, 0x3eee, 0x402b, 0x4166, 0x429f, 0x43d6,
    0x450a, 0x463d, 0x476d, 0x489c, 0x49c8, 0x4af2, 0x4c1b, 0x4d41, 0x4e65, 0x4f87, 0x50a8, 0x51c6,
    0x52e3, 0x53fe, 0x5517, 0x562e, 0x5743, 0x5856, 0x5968, 0x5a78, 0x5b86, 0x5c93, 0x5d9d, 0x5ea6,
    0x5fae, 0x60b3, 0x61b7, 0x62ba, 0x63bb, 0x64ba, 0x65b7, 0x66b3, 0x67ae, 0x68a7, 0x699e, 0x6a94,
    0x6b88, 0x6c7b, 0x6d6d, 0x6e5d, 0x6f4b, 0x7038, 0x7124, 0x720e, 0x72f7, 0x73de, 0x74c4, 0x75a9,
    0x768c, 0x776e, 0x784f, 0x792e, 0x7a0d, 0x7ae9, 0x7bc5, 0x7c9f, 0x7d78, 0x7e50, 0x7f26, 0x7ffc,
    0x80d0, 0x81a3, 0x8274, 0x8345, 0x8414, 0x84e2, 0x85af, 0x867b, 0x8746, 0x880f, 0x88d8, 0x899f,
    0x8a65, 0x8b2b, 0x8bef, 0x8cb2, 0x8d74, 0x8e35, 0x8ef4, 0x8fb3, 0x9071, 0x912e, 0x91ea, 0x92a4,
    0x935e, 0x9417, 0x94cf, 0x9586, 0x963c, 0x96f0, 0x97a4, 0x9857, 0x990a, 0x99bb, 0x9a6b, 0x9b1a,
    0x9bc9, 0x9c76, 0x9d23, 0x9dcf, 0x9e7a, 0x9f24, 0x9fcd, 0xa075, 0xa11c, 0xa1c3, 0xa269, 0xa30e,
    0xa3b2, 0xa455, 0xa4f7, 0xa599, 0xa63a, 0xa6da, 0xa779, 0xa818, 0xa8b5, 0xa952, 0xa9ef, 0xaa8a,
    0xab25, 0xabbe, 0xac58, 0xacf0, 0xad88, 0xae1f, 0xaeb5, 0xaf4a, 0xafdf, 0xb073, 0xb107, 0xb199,
    0xb22b, 0xb2bd, 0xb34d, 0xb3dd, 0xb46c, 0xb4fb, 0xb589, 0xb616, 0xb6a3, 0xb72f, 0xb7ba, 0xb845,
    0xb8cf, 0xb958, 0xb9e1, 0xba69, 0xbaf1, 0xbb78, 0xbbfe, 0xbc84, 0xbd09, 0xbd8d, 0xbe11,
];

/// Clamps to the range of `i16`.
pub open spec fn clamp16(x: int) -> i16 {
    if x < -32768 {
        -32768i16
    } else if x > 32767 {
        32767i16
    } else {
        x as i16
    }
}

/// Division rounding toward zero, as Rust's `/` on integers.
pub open spec fn tdiv(a: int, d: int) -> int {
    if a >= 0 {
        a / d
    } else {
        -((-a) / d)
    }
}

pub fn cutoff(x: i32) -> (r: i16)
    ensures
        r == clamp16(x as int),
{
    if x < -32768 {
        -32768
    } else if x > 32767 {
        32767
    } else {
        x as i16
    }
}

fn div_level(a: i32) -> (r: i32)
    requires
        a > i32::MIN,
    ensures
        r == tdiv(a as int, AUDIO_LEVEL_MAX as int),
{
    if a >= 0 {
        a / AUDIO_LEVEL_MAX
    } else {
        -((-a) / AUDIO_LEVEL_MAX)
    }
}

/// First-order low-pass filter.
pub struct LPFilter {
    pub prev_out: i16,
}

impl LPFilter {
    pub open spec fn wf(&self) -> bool {
        true
    }

    pub fn new() -> (r: Self)
        ensures
            r.prev_out == 0,
    {
        LPFilter { prev_out: 0 }
    }

    pub fn output(&mut self, input: i16) -> (r: i16)
        ensures
            r == clamp16(old(self).prev_out + tdiv(
                (input - old(self).prev_out) * LP_FACTOR,
                AUDIO_LEVEL_MAX as int,
            )),
            final(self).prev_out == r,
    {
        let d = (input as i32 - self.prev_out as i32) * LP_FACTOR;
        let out = cutoff(self.prev_out as i32 + div_level(d));
        self.prev_out = out;
        out
    }
}

/// First-order high-pass filter.
pub struct HPFilter {
    pub prev_in: i16,
    pub prev_out: i16,
    pub hp_factor: i32,
}

impl HPFilter {
    pub open spec fn wf(&self) -> bool {
        0 <= self.hp_factor <= AUDIO_LEVEL_MAX
    }

    pub fn new(hp_factor: i32) -> (r: Self)
        ensures
            r.prev_in == 0 && r.prev_out == 0 && r.hp_factor == hp_factor,
    {
        HPFilter { prev_in: 0, prev_out: 0, hp_factor }
    }

    pub fn output(&mut self, input: i16) -> (r: i16)
        requires
            old(self).wf(),
        ensures
            r == clamp16(tdiv(old(self).prev_out * old(self).hp_factor, AUDIO_LEVEL_MAX as int)
                + input - old(self).prev_in),
            *final(self) == (HPFilter { prev_in: input, prev_out: r, ..*old(self) }),
    {
        proof {
            assert(-32768 * 32768 <= self.prev_out * self.hp_factor <= 32767 * 32768)
                by (nonlinear_arith)
                requires
                    -32768 <= self.prev_out <= 32767,
                    0 <= self.hp_factor <= 32768,
            ;
        }
        let scaled = div_level(self.prev_out as i32 * self.hp_factor);
        let out = cutoff(scaled + input as i32 - self.prev_in as i32);
        self.prev_in = input;
        self.prev_out = out;
        out
    }
}

/// A pulse channel: envelope, sweep, length counter, 11-bit timer and 8-step duty sequencer.
pub struct Pulse {
    pub env_period: u8,
    pub env_lvl: u8,
    pub decay_lvl: u8,
    pub env_start: bool,
    pub env_loop: bool,
    pub env_const: bool,
    pub env_vol: u8,
    pub swp_count: u8,
    pub swp_period: u8,
    pub swp_lvl: u8,
    pub swp_en: bool,
    pub swp_neg: bool,
    pub swp_rld: bool,
    pub muted: bool,
    pub len_lvl: u8,
    pub timer_period: u16,
    pub timer_lvl: u16,
    pub seq_wave: u8,
    pub seq_cnt: u8,
    pub enabled: bool,
    /// two's-complement sweep negation (the second pulse channel)
    pub comple: bool,
}

/// The next level of a down-counter that reloads from `period` when it reaches zero.
pub open spec fn envelope_step(start: bool, lvl: u8, period: u8, decay: u8, looping: bool) -> (
    u8,
    u8,
) {
    if start {
        (period, 0xf)
    } else if lvl == 0 {
        (period, if decay == 0 {
            if looping {
                0xf
            } else {
                0
            }
        } else {
            (decay - 1) as u8
        })
    } else {
        ((lvl - 1) as u8, decay)
    }
}

impl Pulse {
    pub open spec fn wf(&self) -> bool {
        &&& self.seq_cnt < 8
        &&& self.env_vol < 16
        &&& self.decay_lvl < 16
        &&& self.env_period < 16
        &&& self.swp_count < 8
        &&& self.timer_period < 0x800
    }

    pub open spec fn spec_output(&self) -> u8 {
        if self.enabled && !self.muted && (self.seq_wave >> self.seq_cnt) & 1 == 1 && self.len_lvl
            > 0 {
            if self.env_const {
                self.env_vol
            } else {
                self.decay_lvl
            }
        } else {
            0
        }
    }

    pub open spec fn reg1_written(self, data: u8) -> Pulse {
        Pulse {
            seq_wave: DUTY_TABLE[(data >> 6) as int],
            env_loop: data & 0x20 == 0x20,
            env_const: data & 0x10 == 0x10,
            env_period: data & 0xf,
            env_vol: data & 0xf,
            ..self
        }
    }

    pub open spec fn reg2_written(self, data: u8) -> Pulse {
        Pulse {
            swp_en: (data >> 7) == 1,
            swp_period: (data >> 4) & 7,
            swp_neg: data & 0x8 == 0x8,
            swp_count: data & 7,
            swp_rld: true,
            ..self
        }
    }

    pub open spec fn reg3_written(self, data: u8) -> Pulse {
        let p = (self.timer_period & 0x0700) | data as u16;
        Pulse { timer_period: p, muted: p < 8, ..self }
    }

    pub open spec fn reg4_written(self, data: u8) -> Pulse {
        let p = (self.timer_period & 0x00ff) | ((data as u16 & 7) << 8u16);
        Pulse {
            len_lvl: if self.enabled {
                LEN_TABLE[(data >> 3) as int]
            } else {
                self.len_lvl
            },
            timer_period: p,
            muted: p < 8,
            seq_cnt: 0,
            decay_lvl: 0xf,
            ..self
        }
    }

    pub fn new(comple: bool) -> (r: Self)
        ensures
            r.wf(),
            r.comple == comple,
            !r.enabled && r.len_lvl == 0 && r.timer_period == 0 && r.seq_cnt == 0,
    {
        Pulse {
            env_period: 0,
            env_lvl: 0,
            decay_lvl: 0,
            env_start: false,
            env_loop: false,
            env_const: false,
            env_vol: 0,
            swp_count: 0,
            swp_period: 0,
            swp_lvl: 0,
            swp_en: false,
            swp_neg: false,
            swp_rld: false,
            muted: false,
            len_lvl: 0,
            timer_period: 0,
            timer_lvl: 0,
            seq_wave: 0,
            seq_cnt: 0,
            enabled: false,
            comple,
        }
    }

    /// $4000/$4004: duty, envelope loop (length halt), constant volume, volume/period.
    pub fn write_reg1(&mut self, data: u8)
        requires
            old(self).wf(),
        ensures
            final(self).wf(),
            *final(self) == old(self).reg1_written(data),
    {
        proof { crate::utils::lemma_byte_fields(data); }
        self.seq_wave = DUTY_TABLE[(data >> 6u8) as usize];
        self.env_loop = data & 0x20 == 0x20;
        self.env_const = data & 0x10 == 0x10;
        self.env_period = data & 0xf;
        self.env_vol = data & 0xf;
        proof { crate::utils::lemma_byte_fields(data); }
    }

    /// $4001/$4005: sweep unit.
    pub fn write_reg2(&mut self, data: u8)
        requires
            old(self).wf(),
        ensures
            final(self).wf(),
            *final(self) == old(self).reg2_written(data),
    {
        self.swp_en = (data >> 7u8) == 1;
        self.swp_period = (data >> 4u8) & 7;
        self.swp_neg = data & 0x8 == 0x8;
        self.swp_count = data & 7;
        self.swp_rld = true;
        proof { crate::utils::lemma_byte_fields(data); }
    }

    /// $4002/$4006: timer low byte.
    pub fn write_reg3(&mut self, data: u8)
        requires
            old(self).wf(),
        ensures
            final(self).wf(),
            *final(self) == old(self).reg3_written(data),
    {
        let tp = self.timer_period;
        let p = (tp & 0x0700) | data as u16;
        assert(p < 0x800) by (bit_vector) requires p == (tp & 0x0700) | data as u16;
        self.set_timer_period(p);
    }

    /// $4003/$4007: length counter load and timer high bits; restarts the sequencer.
    pub fn write_reg4(&mut self, data: u8)
        requires
            old(self).wf(),
        ensures
            final(self).wf(),
            *final(self) == old(self).reg4_written(data),
    {
        proof { crate::utils::lemma_byte_fields(data); }
        self.set_len(data >> 3u8);
        let tp = self.timer_period;
        let p = (tp & 0x00ff) | ((data as u16 & 7) << 8u16);
        assert(p < 0x800) by (bit_vector) requires p == (tp & 0x00ff) | ((data as u16 & 7) << 8u16);
        self.set_timer_period(p);
        self.seq_cnt = 0;
        self.decay_lvl = 0xf;
    }

    pub fn output(&self) -> (r: u8)
        requires
            self.wf(),
        ensures
            r == self.spec_output(),
            r < 16,
    {
        let env = if self.env_const { self.env_vol } else { self.decay_lvl };
        let seq = (self.seq_wave >> self.seq_cnt) & 1 == 1;
        if self.enabled && !self.muted && seq && self.len_lvl > 0 {
            env
        } else {
            0
        }
    }

    pub fn tick_env(&mut self)
        requires
            old(self).wf(),
        ensures
            *final(self) == old(self).env_ticked(),
            final(self).wf(),
            ({
                let (l, d) = envelope_step(
                    old(self).env_start,
                    old(self).env_lvl,
                    old(self).env_period,
                    old(self).decay_lvl,
                    old(self).env_loop,
                );
                *final(self) == (Pulse { env_lvl: l, decay_lvl: d, env_start: false, ..*old(self) })
            }),
    {
        if !self.env_start {
            if self.env_lvl == 0 {
                self.env_lvl = self.env_period;
                if self.decay_lvl == 0 {
                    if self.env_loop {
                        self.decay_lvl = 0xf;
                    }
                } else {
                    self.decay_lvl = self.decay_lvl - 1;
                }
            } else {
                self.env_lvl = self.env_lvl - 1;
            }
        } else {
            self.decay_lvl = 0xf;
            self.env_start = false;
            self.env_lvl = self.env_period;
        }
    }

    /// The period the sweep unit computes from the current one.
    pub open spec fn sweep_target(&self) -> u16 {
        let p = self.timer_period;
        let delta = p >> self.swp_count;
        let d = if self.swp_neg {
            if self.comple {
                (!delta).wrapping_add(1)
            } else {
                !delta
            }
        } else {
            delta
        };
        p.wrapping_add(d)
    }

    pub fn tick_sweep(&mut self)
        requires
            old(self).wf(),
        ensures
            *final(self) == old(self).swept(),
            final(self).wf(),
            ({
                let fire = old(self).swp_lvl == 0;
                let target = old(self).sweep_target();
                let muted = target < 8 || (target >> 11u16) != 0;
                let reload = fire || old(self).swp_rld;
                &&& final(self).swp_lvl == if reload {
                    old(self).swp_period
                } else {
                    (old(self).swp_lvl - 1) as u8
                }
                &&& final(self).swp_rld == (old(self).swp_rld && !reload)
                &&& final(self).muted == if fire && old(self).swp_en {
                    muted
                } else {
                    old(self).muted
                }
                &&& final(self).timer_period == if fire && old(self).swp_en && !muted
                    && old(self).swp_count != 0 {
                    target
                } else {
                    old(self).timer_period
                }
                &&& *final(self) == (Pulse {
                    swp_lvl: final(self).swp_lvl,
                    swp_rld: final(self).swp_rld,
                    muted: final(self).muted,
                    timer_period: final(self).timer_period,
                    ..*old(self)
                })
            }),
    {
        let mut reload = self.swp_rld;
        if self.swp_lvl == 0 {
            reload = true;
            if self.swp_en {
                let p = self.timer_period;
                let mut delta = p >> self.swp_count;
                if self.swp_neg {
                    delta = !delta;
                    if self.comple {
                        delta = delta.wrapping_add(1);
                    }
                }
                let np = p.wrapping_add(delta);
                self.muted = np < 8 || (np >> 11u16) != 0;
                if !self.muted && self.swp_count != 0 {
                    self.timer_period = np;
                    assert(np < 0x800) by (bit_vector) requires (np >> 11u16) == 0;
                }
            }
        } else {
            self.swp_lvl = self.swp_lvl - 1;
        }
        if reload {
            self.swp_lvl = self.swp_period;
            self.swp_rld = false;
        }
    }

    pub fn tick_length(&mut self)
        ensures
            *final(self) == old(self).length_ticked(),
            *final(self) == (Pulse {
                len_lvl: if old(self).len_lvl > 0 && !old(self).env_loop {
                    (old(self).len_lvl - 1) as u8
                } else {
                    old(self).len_lvl
                },
                ..*old(self)
            }),
    {
        if self.len_lvl > 0 && !self.env_loop {
            self.len_lvl = self.len_lvl - 1;
        }
    }

    pub fn tick_timer(&mut self)
        requires
            old(self).wf(),
        ensures
            *final(self) == old(self).timer_ticked(),
            final(self).wf(),
            old(self).timer_lvl == 0 ==> *final(self) == (Pulse {
                timer_lvl: old(self).timer_period,
                seq_cnt: ((old(self).seq_cnt + 1) % 8) as u8,
                ..*old(self)
            }),
            old(self).timer_lvl != 0 ==> *final(self) == (Pulse {
                timer_lvl: (old(self).timer_lvl - 1) as u16,
                ..*old(self)
            }),
    {
        if self.timer_lvl == 0 {
            self.timer_lvl = self.timer_period;
            if self.seq_cnt == 7 {
                self.seq_cnt = 0;
            } else {
                self.seq_cnt = self.seq_cnt + 1;
            }
        } else {
            self.timer_lvl = self.timer_lvl - 1;
        }
    }

    pub fn disable(&mut self)
        ensures
            *final(self) == (Pulse { len_lvl: 0, enabled: false, ..*old(self) }),
    {
        self.len_lvl = 0;
        self.enabled = false;
    }

    pub fn enable(&mut self)
        ensures
            *final(self) == (Pulse { enabled: true, ..*old(self) }),
    {
        self.enabled = true;
    }

    pub fn get_len(&self) -> (r: u8)
        ensures
            r == self.len_lvl,
    {
        self.len_lvl
    }

    fn set_len(&mut self, d: u8)
        requires
            d < 32,
        ensures
            *final(self) == (Pulse {
                len_lvl: if old(self).enabled {
                    LEN_TABLE[d as int]
                } else {
                    old(self).len_lvl
                },
                ..*old(self)
            }),
    {
        if self.enabled {
            self.len_lvl = LEN_TABLE[d as usize];
        }
    }

    fn set_timer_period(&mut self, p: u16)
        ensures
            *final(self) == (Pulse { muted: p < 8, timer_period: p, ..*old(self) }),
    {
        self.muted = p < 8;
        self.timer_period = p;
    }
}

/// The triangle channel: linear counter, length counter, 11-bit timer, 32-step sequencer.
pub struct Triangle {
    pub cnt_rld: bool,
    pub cnt_lvl: u8,
    pub cnt_rld_val: u8,
    pub len_lvl: u8,
    pub timer_period: u16,
    pub timer_lvl: u16,
    pub seq_cnt: u8,
    pub enabled: bool,
    /// length halt / linear counter control
    pub ctrl: bool,
}

impl Triangle {
    pub open spec fn wf(&self) -> bool {
        self.seq_cnt < 32 && self.timer_period < 0x800
    }

    pub open spec fn spec_output(&self) -> u8 {
        if self.enabled && self.timer_period >= 2 {
            TRI_SEQ_TABLE[self.seq_cnt as int]
        } else {
            0
        }
    }

    pub open spec fn reg1_written(self, data: u8) -> Triangle {
        Triangle { cnt_rld_val: data & 0x7f, ctrl: data >> 7 == 1, ..self }
    }

    pub open spec fn reg3_written(self, data: u8) -> Triangle {
        Triangle { timer_period: (self.timer_period & 0x0700) | data as u16, ..self }
    }

    pub fn new() -> (r: Self)
        ensures
            r.wf(),
            !r.enabled && r.len_lvl == 0 && r.seq_cnt == 0 && r.timer_period == 0,
    {
        Triangle {
            cnt_rld: false,
            cnt_lvl: 0,
            cnt_rld_val: 0,
            len_lvl: 0,
            timer_period: 0,
            timer_lvl: 0,
            seq_cnt: 0,
            enabled: false,
            ctrl: false,
        }
    }

    /// $4008: linear counter control and reload value.
    pub fn write_reg1(&mut self, data: u8)
        ensures
            *final(self) == old(self).reg1_written(data),
    {
        self.cnt_rld_val = data & 0x7f;
        self.ctrl = data >> 7u8 == 1;
    }

    /// $400a: timer low byte.
    pub fn write_reg3(&mut self, data: u8)
        requires
            old(self).wf(),
        ensures
            final(self).wf(),
            *final(self) == old(self).reg3_written(data),
    {
        let tp = self.timer_period;
        let p = (tp & 0x0700) | data as u16;
        assert(p < 0x800) by (bit_vector) requires p == (tp & 0x0700) | data as u16;
        self.timer_period = p;
    }

    /// $400b: length counter load and timer high bits; sets the linear counter reload flag.
    pub fn write_reg4(&mut self, data: u8)
        requires
            old(self).wf(),
        ensures
            final(self).wf(),
            ({
                let p = (old(self).timer_period & 0x00ff) | ((data as u16 & 7) << 8u16);
                *final(self) == (Triangle {
                    len_lvl: if old(self).enabled {
                        LEN_TABLE[(data >> 3) as int]
                    } else {
                        old(self).len_lvl
                    },
                    timer_period: p,
                    timer_lvl: p,
                    cnt_rld: true,
                    ..*old(self)
                })
            }),
    {
        proof { crate::utils::lemma_byte_fields(data); }
        if self.enabled {
            self.len_lvl = LEN_TABLE[(data >> 3u8) as usize];
        }
        let tp = self.timer_period;
        let p = (tp & 0x00ff) | ((data as u16 & 7) << 8u16);
        assert(p < 0x800) by (bit_vector) requires p == (tp & 0x00ff) | ((data as u16 & 7) << 8u16);
        self.timer_period = p;
        self.timer_lvl = p;
        self.cnt_rld = true;
    }

    pub fn output(&self) -> (r: u8)
        requires
            self.wf(),
        ensures
            r == self.spec_output(),
            r < 16,
    {
        if self.enabled && self.timer_period >= 2 {
            TRI_SEQ_TABLE[self.seq_cnt as usize]
        } else {
            0
        }
    }

    pub fn tick_counter(&mut self)
        ensures
            *final(self) == old(self).counter_ticked(),
            *final(self) == (Triangle {
                cnt_lvl: if old(self).cnt_rld {
                    old(self).cnt_rld_val
                } else if old(self).cnt_lvl > 0 {
                    (old(self).cnt_lvl - 1) as u8
                } else {
                    0
                },
                cnt_rld: old(self).cnt_rld && old(self).ctrl,
                ..*old(self)
            }),
    {
        if self.cnt_rld {
            self.cnt_lvl = self.cnt_rld_val;
        } else if self.cnt_lvl > 0 {
            self.cnt_lvl = self.cnt_lvl - 1;
        }
        if !self.ctrl {
            self.cnt_rld = false;
        }
    }

    pub fn tick_length(&mut self)
        ensures
            *final(self) == old(self).length_ticked(),
            *final(self) == (Triangle {
                len_lvl: if old(self).len_lvl > 0 && !old(self).ctrl {
                    (old(self).len_lvl - 1) as u8
                } else {
                    old(self).len_lvl
                },
                ..*old(self)
            }),
    {
        if self.len_lvl > 0 && !self.ctrl {
            self.len_lvl = self.len_lvl - 1;
        }
    }

    pub fn tick_timer(&mut self)
        requires
            old(self).wf(),
        ensures
            *final(self) == old(self).timer_ticked(),
            final(self).wf(),
            !(old(self).len_lvl > 0 && old(self).cnt_lvl > 0) ==> *final(self) == *old(self),
            old(self).len_lvl > 0 && old(self).cnt_lvl > 0 && old(self).timer_lvl == 0
                ==> *final(self) == (Triangle {
                timer_lvl: old(self).timer_period,
                seq_cnt: ((old(self).seq_cnt + 1) % 32) as u8,
                ..*old(self)
            }),
            old(self).len_lvl > 0 && old(self).cnt_lvl > 0 && old(self).timer_lvl != 0
                ==> *final(self) == (Triangle {
                timer_lvl: (old(self).timer_lvl - 1) as u16,
                ..*old(self)
            }),
    {
        if self.len_lvl > 0 && self.cnt_lvl > 0 {
            if self.timer_lvl == 0 {
                self.timer_lvl = self.timer_period;
                if self.seq_cnt == 31 {
                    self.seq_cnt = 0;
                } else {
                    self.seq_cnt = self.seq_cnt + 1;
                }
            } else {
                self.timer_lvl = self.timer_lvl - 1;
            }
        }
    }

    pub fn disable(&mut self)
        ensures
            *final(self) == (Triangle { len_lvl: 0, enabled: false, ..*old(self) }),
    {
        self.len_lvl = 0;
        self.enabled = false;
    }

    pub fn enable(&mut self)
        ensures
            *final(self) == (Triangle { enabled: true, ..*old(self) }),
    {
        self.enabled = true;
    }

    pub fn get_len(&self) -> (r: u8)
        ensures
            r == self.len_lvl,
    {
        self.len_lvl
    }
}

/// The noise channel: envelope, length counter, timer from a period table, 15-bit LFSR.
pub struct Noise {
    pub env_period: u8,
    pub env_lvl: u8,
    pub decay_lvl: u8,
    pub env_start: bool,
    pub env_loop: bool,
    pub env_const: bool,
    pub env_vol: u8,
    pub len_lvl: u8,
    pub timer_period: u16,
    pub timer_lvl: u16,
    pub shift_reg: u16,
    pub loop_noise: bool,
    pub enabled: bool,
}

/// One LFSR clock: feedback from bit 0 and bit 1 (bit 6 in loop mode) enters at bit 14.
pub open spec fn lfsr_step(reg: u16, loop_noise: bool) -> u16 {
    let bit: u16 = if loop_noise { 6 } else { 1 };
    let feedback = (reg & 1) ^ ((reg >> bit) & 1);
    (reg >> 1u16) | (feedback << 14u16)
}

impl Noise {
    pub open spec fn wf(&self) -> bool {
        self.env_vol < 16 && self.decay_lvl < 16 && self.env_period < 16
    }

    pub open spec fn spec_output(&self) -> u8 {
        if self.enabled && self.shift_reg & 1 == 0 && self.len_lvl > 0 {
            if self.env_const {
                self.env_vol
            } else {
                self.decay_lvl
            }
        } else {
            0
        }
    }

    pub open spec fn reg1_written(self, data: u8) -> Noise {
        Noise {
            env_loop: data & 0x20 == 0x20,
            env_const: data & 0x10 == 0x10,
            env_period: data & 0xf,
            env_vol: data & 0xf,
            ..self
        }
    }

    pub open spec fn reg3_written(self, data: u8) -> Noise {
        Noise {
            loop_noise: (data >> 7) == 1,
            timer_period: NOISE_PERIOD_TABLE[(data & 0xf) as int],
            ..self
        }
    }

    pub fn new() -> (r: Self)
        ensures
            r.wf(),
            r.shift_reg == 1,
            !r.enabled && r.len_lvl == 0,
    {
        Noise {
            env_period: 0,
            env_lvl: 0,
            decay_lvl: 0,
            env_start: false,
            env_loop: false,
            env_const: false,
            env_vol: 0,
            len_lvl: 0,
            timer_period: 0,
            timer_lvl: 0,
            shift_reg: 1,
            loop_noise: false,
            enabled: false,
        }
    }

    /// $400c: envelope loop (length halt), constant volume, volume/period.
    pub fn write_reg1(&mut self, data: u8)
        requires
            old(self).wf(),
        ensures
            final(self).wf(),
            *final(self) == old(self).reg1_written(data),
    {
        self.env_loop = data & 0x20 == 0x20;
        self.env_const = data & 0x10 == 0x10;
        self.env_period = data & 0xf;
        self.env_vol = data & 0xf;
        proof { crate::utils::lemma_byte_fields(data); }
    }

    /// $400e: loop mode and timer period.
    pub fn write_reg3(&mut self, data: u8)
        ensures
            *final(self) == old(self).reg3_written(data),
    {
        self.loop_noise = (data >> 7u8) == 1;
        proof { crate::utils::lemma_byte_fields(data); }
        self.timer_period = NOISE_PERIOD_TABLE[(data & 0xf) as usize];
    }

    /// $400f: length counter load; restarts the envelope.
    pub fn write_reg4(&mut self, data: u8)
        requires
            old(self).wf(),
        ensures
            final(self).wf(),
            *final(self) == (Noise {
                len_lvl: if old(self).enabled {
                    LEN_TABLE[(data >> 3) as int]
                } else {
                    old(self).len_lvl
                },
                decay_lvl: 0xf,
                ..*old(self)
            }),
    {
        proof { crate::utils::lemma_byte_fields(data); }
        if self.enabled {
            self.len_lvl = LEN_TABLE[(data >> 3u8) as usize];
        }
        self.decay_lvl = 0xf;
    }

    pub fn output(&self) -> (r: u8)
        requires
            self.wf(),
        ensures
            r == self.spec_output(),
            r < 16,
    {
        let env = if self.env_const { self.env_vol } else { self.decay_lvl };
        if self.enabled && self.shift_reg & 1 == 0 && self.len_lvl > 0 {
            env
        } else {
            0
        }
    }

    pub fn tick_env(&mut self)
        requires
            old(self).wf(),
        ensures
            *final(self) == old(self).env_ticked(),
            final(self).wf(),
            ({
                let (l, d) = envelope_step(
                    old(self).env_start,
                    old(self).env_lvl,
                    old(self).env_period,
                    old(self).decay_lvl,
                    old(self).env_loop,
                );
                *final(self) == (Noise { env_lvl: l, decay_lvl: d, env_start: false, ..*old(self) })
            }),
    {
        if !self.env_start {
            if self.env_lvl == 0 {
                self.env_lvl = self.env_period;
                if self.decay_lvl == 0 {
                    if self.env_loop {
                        self.decay_lvl = 0xf;
                    }
                } else {
                    self.decay_lvl = self.decay_lvl - 1;
                }
            } else {
                self.env_lvl = self.env_lvl - 1;
            }
        } else {
            self.decay_lvl = 0xf;
            self.env_start = false;
            self.env_lvl = self.env_period;
        }
    }

    pub fn tick_length(&mut self)
        ensures
            *final(self) == old(self).length_ticked(),
            *final(self) == (Noise {
                len_lvl: if old(self).len_lvl > 0 && !old(self).env_loop {
                    (old(self).len_lvl - 1) as u8
                } else {
                    old(self).len_lvl
                },
                ..*old(self)
            }),
    {
        if self.len_lvl > 0 && !self.env_loop {
            self.len_lvl = self.len_lvl - 1;
        }
    }

    pub fn tick_timer(&mut self)
        ensures
            *final(self) == old(self).timer_ticked(),
            old(self).timer_lvl == 0 ==> *final(self) == (Noise {
                timer_lvl: old(self).timer_period,
                shift_reg: lfsr_step(old(self).shift_reg, old(self).loop_noise),
                ..*old(self)
            }),
            old(self).timer_lvl != 0 ==> *final(self) == (Noise {
                timer_lvl: (old(self).timer_lvl - 1) as u16,
                ..*old(self)
            }),
    {
        if self.timer_lvl == 0 {
            self.timer_lvl = self.timer_period;
            let bit: u16 = if self.loop_noise { 6 } else { 1 };
            let feedback = (self.shift_reg & 1) ^ ((self.shift_reg >> bit) & 1);
            self.shift_reg = (self.shift_reg >> 1u16) | (feedback << 14u16);
        } else {
            self.timer_lvl = self.timer_lvl - 1;
        }
    }

    pub fn disable(&mut self)
        ensures
            *final(self) == (Noise { len_lvl: 0, enabled: false, ..*old(self) }),
    {
        self.len_lvl = 0;
        self.enabled = false;
    }

    pub fn enable(&mut self)
        ensures
            *final(self) == (Noise { enabled: true, ..*old(self) }),
    {
        self.enabled = true;
    }

    pub fn get_len(&self) -> (r: u8)
        ensures
            r == self.len_lvl,
    {
        self.len_lvl
    }
}

/// The delta modulation channel: plays 1-bit deltas fetched from cartridge memory.
pub struct DMC {
    pub dmc_loop: bool,
    /// bits left in the shift register
    pub dmc_cnt: u8,
    pub irq_enabled: bool,
    pub sample_addr: u16,
    pub sample_len: u16,
    pub shift_reg: u8,
    pub cur_addr: u16,
    pub rem_len: u16,
    pub level: u8,
    pub timer_lvl: u16,
    pub timer_period: u16,
    pub enabled: bool,
}

impl DMC {
    /// Sample bytes always come from 0x8000..0xffff, where the cartridge answers.
    pub open spec fn wf(&self) -> bool {
        &&& self.level <= 127
        &&& self.dmc_cnt <= 8
        &&& self.cur_addr >= 0x8000
        &&& self.sample_addr >= 0xc000
    }

    pub fn new() -> (r: Self)
        ensures
            r.wf(),
            !r.enabled && r.rem_len == 0 && r.level == 0 && r.dmc_cnt == 8,
    {
        DMC {
            dmc_loop: false,
            dmc_cnt: 8,
            irq_enabled: false,
            sample_addr: 0xc000,
            sample_len: 0,
            shift_reg: 0,
            cur_addr: 0xc000,
            rem_len: 0,
            level: 0,
            timer_lvl: 0,
            timer_period: 0,
            enabled: false,
        }
    }

    pub open spec fn reg1_written(self, data: u8) -> DMC {
        DMC {
            irq_enabled: (data >> 7) == 1,
            dmc_loop: data & 0x40 == 0x40,
            timer_period: DMC_TABLE[(data & 0xf) as int],
            ..self
        }
    }

    pub open spec fn reg2_written(self, data: u8) -> DMC {
        DMC { level: data & 0x7f, ..self }
    }

    pub open spec fn reg3_written(self, data: u8) -> DMC {
        DMC { sample_addr: 0xc000 | ((data as u16) << 6u16), ..self }
    }

    pub open spec fn reg4_written(self, data: u8) -> DMC {
        DMC { sample_len: ((data as u16) << 4u16) | 1, ..self }
    }

    /// $4010: IRQ enable, loop, rate.
    pub fn write_reg1(&mut self, data: u8)
        requires
            old(self).wf(),
        ensures
            final(self).wf(),
            *final(self) == old(self).reg1_written(data),
    {
        self.irq_enabled = (data >> 7u8) == 1;
        self.dmc_loop = data & 0x40 == 0x40;
        proof { crate::utils::lemma_byte_fields(data); }
        self.timer_period = DMC_TABLE[(data & 0xf) as usize];
    }

    /// $4011: direct load of the output level.
    pub fn write_reg2(&mut self, data: u8)
        requires
            old(self).wf(),
        ensures
            final(self).wf(),
            *final(self) == old(self).reg2_written(data),
    {
        proof { crate::utils::lemma_byte_fields(data); }
        self.level = data & 0x7f;
    }

    /// $4012: sample address, 0xc000 + 64 * data.
    pub fn write_reg3(&mut self, data: u8)
        requires
            old(self).wf(),
        ensures
            final(self).wf(),
            *final(self) == old(self).reg3_written(data),
    {
        let a = 0xc000u16 | ((data as u16) << 6u16);
        assert(a >= 0xc000) by (bit_vector) requires a == 0xc000u16 | ((data as u16) << 6u16);
        self.sample_addr = a;
    }

    /// $4013: sample length, 16 * data + 1 bytes.
    pub fn write_reg4(&mut self, data: u8)
        ensures
            *final(self) == old(self).reg4_written(data),
    {
        self.sample_len = ((data as u16) << 4u16) | 1;
    }

    fn restart(&mut self)
        requires
            old(self).wf(),
        ensures
            final(self).wf(),
            *final(self) == (DMC {
                cur_addr: old(self).sample_addr,
                rem_len: old(self).sample_len,
                ..*old(self)
            }),
    {
        self.cur_addr = self.sample_addr;
        self.rem_len = self.sample_len;
    }

    /// Fetches the next sample byte when the shift register is empty; returns the CPU cycles
    /// the fetch stalls and whether the sample's end raises an IRQ.
    fn try_refill(&mut self, mapper: &Mapper) -> (r: (u32, bool))
        requires
            old(self).wf(),
            mapper.wf(),
        ensures
            (*final(self), r) == old(self).refilled(mapper.spec_read(old(self).cur_addr)),
            final(self).wf(),
            !(old(self).rem_len > 0 && old(self).dmc_cnt == 0) ==> *final(self) == *old(self)
                && r == (0u32, false),
            old(self).rem_len > 0 && old(self).dmc_cnt == 0 ==> {
                &&& r.0 == 4
                &&& final(self).shift_reg == mapper.spec_read(old(self).cur_addr)
                &&& final(self).dmc_cnt == 8
                &&& r.1 == (old(self).rem_len == 1 && !old(self).dmc_loop
                    && old(self).irq_enabled)
                &&& old(self).rem_len == 1 && old(self).dmc_loop ==> final(self).rem_len
                    == old(self).sample_len && final(self).cur_addr == old(self).sample_addr
                &&& !(old(self).rem_len == 1 && old(self).dmc_loop) ==> final(self).rem_len
                    == old(self).rem_len - 1
            },
            final(self).level == old(self).level,
            final(self).enabled == old(self).enabled,
    {
        if self.rem_len > 0 && self.dmc_cnt == 0 {
            self.shift_reg = mapper.read(self.cur_addr);
            self.dmc_cnt = 8;
            self.cur_addr = self.cur_addr.wrapping_add(1);
            if self.cur_addr == 0 {
                self.cur_addr = 0x8000;
            }
            self.rem_len = self.rem_len - 1;
            let mut irq = false;
            if self.rem_len == 0 {
                if self.dmc_loop {
                    self.restart();
                } else if self.irq_enabled {
                    irq = true;
                }
            }
            (4, irq)
        } else {
            (0, false)
        }
    }

    /// Moves the output level by the next delta bit (+2 or -2, within 0..127).
    fn shift(&mut self)
        requires
            old(self).wf(),
        ensures
            *final(self) == old(self).shifted(),
            final(self).wf(),
            old(self).dmc_cnt == 0 ==> *final(self) == *old(self),
            old(self).dmc_cnt != 0 ==> *final(self) == (DMC {
                level: if old(self).shift_reg & 1 == 1 {
                    if old(self).level < 126 {
                        (old(self).level + 2) as u8
                    } else {
                        old(self).level
                    }
                } else {
                    if old(self).level > 1 {
                        (old(self).level - 2) as u8
                    } else {
                        old(self).level
                    }
                },
                shift_reg: old(self).shift_reg >> 1u8,
                dmc_cnt: (old(self).dmc_cnt - 1) as u8,
                ..*old(self)
            }),
    {
        if self.dmc_cnt == 0 {
            return ;
        }
        if self.shift_reg & 1 == 1 {
            if self.level < 126 {
                self.level = self.level + 2;
            }
        } else {
            if self.level > 1 {
                self.level = self.level - 2;
            }
        }
        self.shift_reg = self.shift_reg >> 1u8;
        self.dmc_cnt = self.dmc_cnt - 1;
    }

    /// One timer clock; returns the stall cycles and IRQ of a sample fetch made on it.
    pub fn tick_timer(&mut self, mapper: &Mapper) -> (r: (u32, bool))
        requires
            old(self).wf(),
            mapper.wf(),
        ensures
            (*final(self), r) == old(self).timer_ticked(mapper.spec_read(old(self).cur_addr)),
            final(self).wf(),
            !old(self).enabled ==> *final(self) == *old(self) && r == (0u32, false),
            r.0 == 0 || r.0 == 4,
    {
        if !self.enabled {
            return (0, false);
        }
        let r = self.try_refill(mapper);
        if self.timer_lvl == 0 {
            self.timer_lvl = self.timer_period;
            self.shift();
        } else {
            self.timer_lvl = self.timer_lvl - 1;
        }
        r
    }

    pub fn get_len(&self) -> (r: u16)
        ensures
            r == self.rem_len,
    {
        self.rem_len
    }

    pub fn disable(&mut self)
        ensures
            *final(self) == (DMC { enabled: false, rem_len: 0, ..*old(self) }),
    {
        self.enabled = false;
        self.rem_len = 0;
    }

    pub fn enable(&mut self)
        requires
            old(self).wf(),
        ensures
            final(self).wf(),
            old(self).rem_len == 0 ==> *final(self) == (DMC {
                enabled: true,
                cur_addr: old(self).sample_addr,
                rem_len: old(self).sample_len,
                ..*old(self)
            }),
            old(self).rem_len != 0 ==> *final(self) == (DMC { enabled: true, ..*old(self) }),
    {
        self.enabled = true;
        if self.rem_len == 0 {
            self.restart();
        }
    }

    pub fn output(&self) -> (r: u8)
        ensures
            r == self.level,
    {
        self.level
    }
}

/// The mixer: the pulse table indexed by the pulse sum, the triangle/noise/DMC table indexed
/// by 3 * triangle + 2 * noise + DMC, summed and centered on zero.
pub open spec fn mix(p1: u8, p2: u8, tri: u8, noise: u8, dmc: u8) -> i16 {
    let pulse_out = PULSE_TABLE[(p1 + p2) as int] as int;
    let tnd_out = TND_TABLE[(3 * tri + 2 * noise + dmc) as int] as int;
    (((pulse_out + tnd_out) % 0x10000) as u16).wrapping_sub(0x8000) as i16
}

pub open spec fn lp_out(f: LPFilter, input: i16) -> i16 {
    clamp16(f.prev_out + tdiv((input - f.prev_out) * LP_FACTOR, AUDIO_LEVEL_MAX as int))
}

pub open spec fn hp_out(f: HPFilter, input: i16) -> i16 {
    clamp16(tdiv(f.prev_out * f.hp_factor, AUDIO_LEVEL_MAX as int) + input - f.prev_in)
}

pub open spec fn pulse_switched(p: Pulse, on: bool) -> Pulse {
    if on {
        Pulse { enabled: true, ..p }
    } else {
        Pulse { len_lvl: 0, enabled: false, ..p }
    }
}

pub open spec fn triangle_switched(t: Triangle, on: bool) -> Triangle {
    if on {
        Triangle { enabled: true, ..t }
    } else {
        Triangle { len_lvl: 0, enabled: false, ..t }
    }
}

pub open spec fn noise_switched(n: Noise, on: bool) -> Noise {
    if on {
        Noise { enabled: true, ..n }
    } else {
        Noise { len_lvl: 0, enabled: false, ..n }
    }
}

pub open spec fn dmc_switched(d: DMC, on: bool) -> DMC {
    if !on {
        DMC { enabled: false, rem_len: 0, ..d }
    } else if d.rem_len == 0 {
        DMC { enabled: true, cur_addr: d.sample_addr, rem_len: d.sample_len, ..d }
    } else {
        DMC { enabled: true, ..d }
    }
}

fn switch_pulse(p: &mut Pulse, on: bool)
    requires
        old(p).wf(),
    ensures
        final(p).wf(),
        *final(p) == pulse_switched(*old(p), on),
{
    if on {
        p.enable();
    } else {
        p.disable();
    }
}

/// The Audio Processing Unit.
pub struct APU {
    pub frame_lvl: u8,
    /// five-step sequence
    pub frame_mode: bool,
    pub frame_inh: bool,
    pub frame_int: bool,
    pub cycle_even: bool,
    pub pulse1: Pulse,
    pub pulse2: Pulse,
    pub triangle: Triangle,
    pub noise: Noise,
    pub dmc: DMC,
    pub lp_filter: LPFilter,
    pub hp_filter1: HPFilter,
    pub hp_filter2: HPFilter,
    pub frame_sampler: Sampler,
    pub audio_sampler: Sampler,
}

impl APU {
    pub open spec fn wf(&self) -> bool {
        &&& self.pulse1.wf()
        &&& self.pulse2.wf()
        &&& self.triangle.wf()
        &&& self.noise.wf()
        &&& self.dmc.wf()
        &&& self.hp_filter1.wf()
        &&& self.hp_filter2.wf()
        &&& self.frame_sampler.wf()
        &&& self.audio_sampler.wf()
        &&& self.frame_lvl <= 4
    }

    /// The sample the channels produce now, before filtering.
    pub open spec fn spec_mix(&self) -> i16 {
        mix(
            self.pulse1.spec_output(),
            self.pulse2.spec_output(),
            self.triangle.spec_output(),
            self.noise.spec_output(),
            self.dmc.level,
        )
    }

    pub fn new() -> (r: Self)
        ensures
            r.wf(),
            !r.pulse1.comple && r.pulse2.comple,
            r.frame_lvl == 0 && !r.frame_mode && r.frame_inh && !r.frame_int && !r.cycle_even,
    {
        APU {
            pulse1: Pulse::new(false),
            pulse2: Pulse::new(true),
            triangle: Triangle::new(),
            noise: Noise::new(),
            dmc: DMC::new(),
            frame_lvl: 0,
            frame_mode: false,
            frame_int: false,
            frame_inh: true,
            frame_sampler: Sampler::new(CPU_FREQ, QUARTER_FRAME_FREQ),
            audio_sampler: Sampler::new(CPU_FREQ, AUDIO_SAMPLE_FREQ),
            cycle_even: false,
            lp_filter: LPFilter::new(),
            hp_filter1: HPFilter::new(HP_FACTOR1),
            hp_filter2: HPFilter::new(HP_FACTOR2),
        }
    }

    /// The next audio sample: the mixed channels through the two high-pass filters and the
    /// low-pass filter.
    pub fn output(&mut self) -> (r: i16)
        requires
            old(self).wf(),
        ensures
            *final(self) == old(self).after_output() && r == old(self).after_output().lp_filter.prev_out,
            final(self).wf(),
            ({
                let h1 = hp_out(old(self).hp_filter1, old(self).spec_mix());
                let h2 = hp_out(old(self).hp_filter2, h1);
                &&& r == lp_out(old(self).lp_filter, h2)
                &&& *final(self) == (APU {
                    hp_filter1: HPFilter { prev_in: old(self).spec_mix(), prev_out: h1, ..old(self).hp_filter1 },
                    hp_filter2: HPFilter { prev_in: h1, prev_out: h2, ..old(self).hp_filter2 },
                    lp_filter: LPFilter { prev_out: r },
                    ..*old(self)
                })
            }),
    {
        let p1 = self.pulse1.output();
        let p2 = self.pulse2.output();
        let tri = self.triangle.output();
        let noise = self.noise.output();
        let dmc = self.dmc.output();
        let pulse_out = PULSE_TABLE[(p1 + p2) as usize] as u32;
        let tnd_out = TND_TABLE[(3 * tri + 2 * noise + dmc) as usize] as u32;
        let sum = ((pulse_out + tnd_out) % 0x10000) as u16;
        let mixed = sum.wrapping_sub(0x8000) as i16;
        let h1 = self.hp_filter1.output(mixed);
        let h2 = self.hp_filter2.output(h1);
        self.lp_filter.output(h2)
    }

    /// $4015 read: which length counters are running, and the frame interrupt flag, which the
    /// read clears (except on the last step of the four-step sequence).
    pub fn read_status(&mut self) -> (r: u8)
        ensures
            r == (if old(self).pulse1.len_lvl > 0 { 1u8 } else { 0u8 }) | (if old(self).pulse2.len_lvl
                > 0 { 2u8 } else { 0u8 }) | (if old(self).triangle.len_lvl > 0 { 4u8 } else { 0u8 })
                | (if old(self).noise.len_lvl > 0 { 8u8 } else { 0u8 }) | (if old(self).dmc.rem_len
                > 0 { 16u8 } else { 0u8 }) | (if old(self).frame_int { 64u8 } else { 0u8 }),
            *final(self) == (APU {
                frame_int: old(self).frame_int && old(self).frame_lvl == 3,
                ..*old(self)
            }),
    {
        let res = (if self.pulse1.get_len() > 0 { 1u8 } else { 0u8 }) | (if self.pulse2.get_len()
            > 0 { 2u8 } else { 0u8 }) | (if self.triangle.get_len() > 0 { 4u8 } else { 0u8 }) | (
        if self.noise.get_len() > 0 { 8u8 } else { 0u8 }) | (if self.dmc.get_len() > 0 { 16u8 } else { 0u8 }) | (if self.frame_int { 64u8 } else { 0u8 });
        if self.frame_lvl != 3 {
            self.frame_int = false;
        }
        res
    }

    /// $4015 write: enables (bit set) or silences (bit clear) each channel; silencing clears
    /// its length counter, and enabling an idle DMC restarts its sample.
    pub fn write_status(&mut self, data: u8)
        requires
            old(self).wf(),
        ensures
            final(self).wf(),
            final(self).pulse1 == pulse_switched(old(self).pulse1, data & 0x1 != 0),
            final(self).pulse2 == pulse_switched(old(self).pulse2, data & 0x2 != 0),
            final(self).triangle == triangle_switched(old(self).triangle, data & 0x4 != 0),
            final(self).noise == noise_switched(old(self).noise, data & 0x8 != 0),
            final(self).dmc == dmc_switched(old(self).dmc, data & 0x10 != 0),
            *final(self) == (APU {
                pulse1: final(self).pulse1,
                pulse2: final(self).pulse2,
                triangle: final(self).triangle,
                noise: final(self).noise,
                dmc: final(self).dmc,
                ..*old(self)
            }),
    {
        let on1 = data & 0x1 != 0;
        let on2 = data & 0x2 != 0;
        let on3 = data & 0x4 != 0;
        let on4 = data & 0x8 != 0;
        let on5 = data & 0x10 != 0;
        switch_pulse(&mut self.pulse1, on1);
        switch_pulse(&mut self.pulse2, on2);
        if on3 {
            self.triangle.enable();
        } else {
            self.triangle.disable();
        }
        if on4 {
            self.noise.enable();
        } else {
            self.noise.disable();
        }
        if on5 {
            self.dmc.enable();
        } else {
            self.dmc.disable();
        }
    }

    /// Clocks envelopes and the triangle's linear counter (a quarter frame).
    pub fn tick_env_cnt(&mut self)
        requires
            old(self).wf(),
        ensures
            *final(self) == old(self).quarter(),
            final(self).wf(),
            *final(self) == (APU {
                pulse1: final(self).pulse1,
                pulse2: final(self).pulse2,
                triangle: final(self).triangle,
                noise: final(self).noise,
                ..*old(self)
            }),
    {
        self.pulse1.tick_env();
        self.pulse2.tick_env();
        self.triangle.tick_counter();
        self.noise.tick_env();
    }

    /// Clocks length counters and sweeps (a half frame).
    pub fn tick_len_swp(&mut self)
        requires
            old(self).wf(),
        ensures
            *final(self) == old(self).half(),
            final(self).wf(),
            *final(self) == (APU {
                pulse1: final(self).pulse1,
                pulse2: final(self).pulse2,
                triangle: final(self).triangle,
                noise: final(self).noise,
                ..*old(self)
            }),
    {
        self.pulse1.tick_length();
        self.pulse1.tick_sweep();
        self.pulse2.tick_length();
        self.pulse2.tick_sweep();
        self.triangle.tick_length();
        self.noise.tick_length();
    }

    /// $4017 write: frame IRQ inhibit and sequence mode; the five-step mode clocks the
    /// quarter- and half-frame units at once.
    pub fn write_frame_counter(&mut self, data: u8)
        requires
            old(self).wf(),
        ensures
            data >> 7 == 1 ==> *final(self) == (APU { frame_inh: data & 0x40 == 0x40, frame_mode: true, ..*old(self) }).quarter().half(),
            final(self).wf(),
            final(self).frame_inh == (data & 0x40 == 0x40),
            final(self).frame_mode == (data >> 7 == 1),
            data >> 7 != 1 ==> *final(self) == (APU {
                frame_inh: data & 0x40 == 0x40,
                frame_mode: false,
                ..*old(self)
            }),
    {
        self.frame_inh = data & 0x40 == 0x40;
        self.frame_mode = data >> 7u8 == 1;
        if self.frame_mode {
            self.tick_env_cnt();
            self.tick_len_swp();
        }
    }

    /// One step of the frame sequencer; returns whether the frame interrupt is pending.
    pub fn tick_frame_counter(&mut self) -> (irq: bool)
        requires
            old(self).wf(),
        ensures
            *final(self) == old(self).frame_stepped(),
            final(self).wf(),
            irq == final(self).frame_int,
            !old(self).frame_mode ==> final(self).frame_lvl == (if old(self).frame_lvl >= 3 {
                0
            } else {
                old(self).frame_lvl + 1
            }),
            old(self).frame_mode ==> final(self).frame_lvl == (if old(self).frame_lvl == 4 {
                0
            } else {
                old(self).frame_lvl + 1
            }),
            final(self).frame_int == (old(self).frame_int || (!old(self).frame_mode
                && final(self).frame_lvl == 0 && !old(self).frame_inh)),
            final(self).cycle_even == old(self).cycle_even,
            final(self).frame_sampler == old(self).frame_sampler,
            final(self).audio_sampler == old(self).audio_sampler,
    {
        let f = self.frame_lvl;
        if !self.frame_mode {
            self.frame_lvl = if f >= 3 { 0 } else { f + 1 };
            if self.frame_lvl == 1 || self.frame_lvl == 3 {
                self.tick_env_cnt();
            } else if self.frame_lvl == 2 {
                self.tick_env_cnt();
                self.tick_len_swp();
            } else {
                self.tick_env_cnt();
                self.tick_len_swp();
                if !self.frame_inh {
                    self.frame_int = true;
                }
            }
        } else {
            self.frame_lvl = if f == 4 { 0 } else { f + 1 };
            if self.frame_lvl == 1 || self.frame_lvl == 3 {
                self.tick_env_cnt();
            } else if self.frame_lvl == 0 || self.frame_lvl == 2 {
                self.tick_env_cnt();
                self.tick_len_swp();
            }
        }
        self.frame_int
    }

    /// Clocks the channel timers: pulse, noise and DMC on every other CPU cycle, the triangle
    /// on every cycle. Returns the stall and IRQ of a DMC fetch.
    fn tick_timer(&mut self, mapper: &Mapper) -> (r: (u32, bool))
        requires
            old(self).wf(),
            mapper.wf(),
        ensures
            (*final(self), r) == old(self).timers_ticked(mapper.spec_read(old(self).dmc.cur_addr)),
            final(self).wf(),
            r.0 == 0 || r.0 == 4,
            final(self).frame_sampler == old(self).frame_sampler,
            final(self).audio_sampler == old(self).audio_sampler,
            final(self).cycle_even == old(self).cycle_even,
    {
        let mut r = (0u32, false);
        if self.cycle_even {
            self.pulse1.tick_timer();
            self.pulse2.tick_timer();
            self.noise.tick_timer();
            r = self.dmc.tick_timer(mapper);
        }
        self.triangle.tick_timer();
        r
    }

    /// One CPU cycle of APU time: frame sequencer and audio sample when their samplers fire,
    /// then the channel timers. Returns the CPU stall it causes and whether it requests an IRQ.
    pub fn tick<A: Speaker>(&mut self, mapper: &Mapper, spkr: &mut A) -> (r: (u32, bool))
        requires
            old(self).wf(),
            mapper.wf(),
        ensures
            (*final(self), r) == old(self).ticked(*mapper),
            final(self).wf(),
            final(self).cycle_even == !old(self).cycle_even,
            r.0 == 0 || r.0 == 4,
    {
        let mut irq = false;
        if self.frame_sampler.tick() {
            irq = self.tick_frame_counter();
        }
        if self.audio_sampler.tick() {
            let sample = self.output();
            spkr.queue(sample);
        }
        let (stall, dmc_irq) = self.tick_timer(mapper);
        self.cycle_even = !self.cycle_even;
        (stall, irq || dmc_irq)
    }
}

impl Pulse {
    pub open spec fn env_ticked(self) -> Pulse {
        let (l, d) = envelope_step(self.env_start, self.env_lvl, self.env_period, self.decay_lvl, self.env_loop);
        Pulse { env_lvl: l, decay_lvl: d, env_start: false, ..self }
    }

    pub open spec fn swept(self) -> Pulse {
        let fire = self.swp_lvl == 0;
        let target = self.sweep_target();
        let muted = target < 8 || (target >> 11u16) != 0;
        let reload = fire || self.swp_rld;
        Pulse {
            swp_lvl: if reload { self.swp_period } else { (self.swp_lvl - 1) as u8 },
            swp_rld: self.swp_rld && !reload,
            muted: if fire && self.swp_en { muted } else { self.muted },
            timer_period: if fire && self.swp_en && !muted && self.swp_count != 0 {
                target
            } else {
                self.timer_period
            },
            ..self
        }
    }

    pub open spec fn length_ticked(self) -> Pulse {
        Pulse {
            len_lvl: if self.len_lvl > 0 && !self.env_loop { (self.len_lvl - 1) as u8 } else { self.len_lvl },
            ..self
        }
    }

    pub open spec fn timer_ticked(self) -> Pulse {
        if self.timer_lvl == 0 {
            Pulse { timer_lvl: self.timer_period, seq_cnt: ((self.seq_cnt + 1) % 8) as u8, ..self }
        } else {
            Pulse { timer_lvl: (self.timer_lvl - 1) as u16, ..self }
        }
    }
}

impl Triangle {
    pub open spec fn counter_ticked(self) -> Triangle {
        Triangle {
            cnt_lvl: if self.cnt_rld {
                self.cnt_rld_val
            } else if self.cnt_lvl > 0 {
                (self.cnt_lvl - 1) as u8
            } else {
                0
            },
            cnt_rld: self.cnt_rld && self.ctrl,
            ..self
        }
    }

    pub open spec fn length_ticked(self) -> Triangle {
        Triangle {
            len_lvl: if self.len_lvl > 0 && !self.ctrl { (self.len_lvl - 1) as u8 } else { self.len_lvl },
            ..self
        }
    }

    pub open spec fn timer_ticked(self) -> Triangle {
        if !(self.len_lvl > 0 && self.cnt_lvl > 0) {
            self
        } else if self.timer_lvl == 0 {
            Triangle { timer_lvl: self.timer_period, seq_cnt: ((self.seq_cnt + 1) % 32) as u8, ..self }
        } else {
            Triangle { timer_lvl: (self.timer_lvl - 1) as u16, ..self }
        }
    }
}

impl Noise {
    pub open spec fn env_ticked(self) -> Noise {
        let (l, d) = envelope_step(self.env_start, self.env_lvl, self.env_period, self.decay_lvl, self.env_loop);
        Noise { env_lvl: l, decay_lvl: d, env_start: false, ..self }
    }

    pub open spec fn length_ticked(self) -> Noise {
        Noise {
            len_lvl: if self.len_lvl > 0 && !self.env_loop { (self.len_lvl - 1) as u8 } else { self.len_lvl },
            ..self
        }
    }

    pub open spec fn timer_ticked(self) -> Noise {
        if self.timer_lvl == 0 {
            Noise { timer_lvl: self.timer_period, shift_reg: lfsr_step(self.shift_reg, self.loop_noise), ..self }
        } else {
            Noise { timer_lvl: (self.timer_lvl - 1) as u16, ..self }
        }
    }
}

impl DMC {
    /// The sample fetch: with the shift register empty and bytes left, `byte` (read at
    /// `cur_addr`) is loaded; returns the stall and whether the sample's end raises an IRQ.
    pub open spec fn refilled(self, byte: u8) -> (DMC, (u32, bool)) {
        if self.rem_len > 0 && self.dmc_cnt == 0 {
            let a1 = self.cur_addr.wrapping_add(1);
            let rl = (self.rem_len - 1) as u16;
            let d = DMC {
                shift_reg: byte,
                dmc_cnt: 8,
                cur_addr: if a1 == 0 { 0x8000 } else { a1 },
                rem_len: rl,
                ..self
            };
            if rl == 0 && self.dmc_loop {
                (DMC { cur_addr: self.sample_addr, rem_len: self.sample_len, ..d }, (4u32, false))
            } else {
                (d, (4u32, rl == 0 && self.irq_enabled))
            }
        } else {
            (self, (0u32, false))
        }
    }

    pub open spec fn shifted(self) -> DMC {
        if self.dmc_cnt == 0 {
            self
        } else {
            DMC {
                level: if self.shift_reg & 1 == 1 {
                    if self.level < 126 { (self.level + 2) as u8 } else { self.level }
                } else {
                    if self.level > 1 { (self.level - 2) as u8 } else { self.level }
                },
                shift_reg: self.shift_reg >> 1u8,
                dmc_cnt: (self.dmc_cnt - 1) as u8,
                ..self
            }
        }
    }

    /// One timer clock of an enabled channel: the fetch, then the timer reload (with a shift)
    /// or decrement.
    pub open spec fn timer_ticked(self, byte: u8) -> (DMC, (u32, bool)) {
        if !self.enabled {
            (self, (0u32, false))
        } else {
            let (d, r) = self.refilled(byte);
            if d.timer_lvl == 0 {
                ((DMC { timer_lvl: d.timer_period, ..d }).shifted(), r)
            } else {
                (DMC { timer_lvl: (d.timer_lvl - 1) as u16, ..d }, r)
            }
        }
    }
}

impl APU {
    /// A quarter-frame clock: envelopes and the triangle's linear counter.
    pub open spec fn quarter(self) -> APU {
        APU {
            pulse1: self.pulse1.env_ticked(),
            pulse2: self.pulse2.env_ticked(),
            triangle: self.triangle.counter_ticked(),
            noise: self.noise.env_ticked(),
            ..self
        }
    }

    /// A half-frame clock: length counters and sweeps.
    pub open spec fn half(self) -> APU {
        APU {
            pulse1: self.pulse1.length_ticked().swept(),
            pulse2: self.pulse2.length_ticked().swept(),
            triangle: self.triangle.length_ticked(),
            noise: self.noise.length_ticked(),
            ..self
        }
    }

    /// One frame-sequencer step: four-step mode clocks the quarter-frame units on every step,
    /// the half-frame units on steps 2 and 0 (the wrap), and raises the frame IRQ on the wrap
    /// unless inhibited; five-step mode clocks both on steps 0 and 2, the quarter on 1 and 3,
    /// nothing on 4.
    pub open spec fn frame_stepped(self) -> APU {
        let f = self.frame_lvl;
        if !self.frame_mode {
            let n = if f >= 3 { 0u8 } else { (f + 1) as u8 };
            let a = APU { frame_lvl: n, ..self };
            let b = if n == 1 || n == 3 { a.quarter() } else { a.quarter().half() };
            APU { frame_int: self.frame_int || (n == 0 && !self.frame_inh), ..b }
        } else {
            let n = if f == 4 { 0u8 } else { (f + 1) as u8 };
            let a = APU { frame_lvl: n, ..self };
            if n == 1 || n == 3 {
                a.quarter()
            } else if n == 0 || n == 2 {
                a.quarter().half()
            } else {
                a
            }
        }
    }

    /// The state after producing one audio sample (the filters remember it).
    pub open spec fn after_output(self) -> APU {
        let h1 = hp_out(self.hp_filter1, self.spec_mix());
        let h2 = hp_out(self.hp_filter2, h1);
        APU {
            hp_filter1: HPFilter { prev_in: self.spec_mix(), prev_out: h1, ..self.hp_filter1 },
            hp_filter2: HPFilter { prev_in: h1, prev_out: h2, ..self.hp_filter2 },
            lp_filter: LPFilter { prev_out: lp_out(self.lp_filter, h2) },
            ..self
        }
    }

    /// The channel timers: pulse, noise and DMC on even cycles, the triangle on every cycle.
    pub open spec fn timers_ticked(self, byte: u8) -> (APU, (u32, bool)) {
        if self.cycle_even {
            let (d, r) = self.dmc.timer_ticked(byte);
            (APU {
                pulse1: self.pulse1.timer_ticked(),
                pulse2: self.pulse2.timer_ticked(),
                noise: self.noise.timer_ticked(),
                dmc: d,
                triangle: self.triangle.timer_ticked(),
                ..self
            }, r)
        } else {
            (APU { triangle: self.triangle.timer_ticked(), ..self }, (0u32, false))
        }
    }

    /// One CPU cycle of APU time, and the stall and IRQ request it returns.
    pub open spec fn ticked(self, mapper: Mapper) -> (APU, (u32, bool)) {
        let (fs, ff) = self.frame_sampler.ticked();
        let a1 = APU { frame_sampler: fs, ..self };
        let a2 = if ff { a1.frame_stepped() } else { a1 };
        let (aus, af) = a2.audio_sampler.ticked();
        let a3 = APU { audio_sampler: aus, ..a2 };
        let a4 = if af { a3.after_output() } else { a3 };
        let (a5, r) = a4.timers_ticked(mapper.spec_read(a4.dmc.cur_addr));
        (APU { cycle_even: !self.cycle_even, ..a5 }, (r.0, (ff && a2.frame_int) || r.1))
    }
}

/// Writing a sound register twice with one value leaves the channel as writing it once.
pub proof fn lemma_apu_write_idempotent(p: Pulse, t: Triangle, n: Noise, d: DMC, data: u8)
    ensures
        p.reg1_written(data).reg1_written(data) == p.reg1_written(data),
        p.reg2_written(data).reg2_written(data) == p.reg2_written(data),
        p.reg3_written(data).reg3_written(data) == p.reg3_written(data),
        p.reg4_written(data).reg4_written(data) == p.reg4_written(data),
        t.reg1_written(data).reg1_written(data) == t.reg1_written(data),
        n.reg1_written(data).reg1_written(data) == n.reg1_written(data),
        n.reg3_written(data).reg3_written(data) == n.reg3_written(data),
        d.reg1_written(data).reg1_written(data) == d.reg1_written(data),
        d.reg2_written(data).reg2_written(data) == d.reg2_written(data),
        d.reg3_written(data).reg3_written(data) == d.reg3_written(data),
        d.reg4_written(data).reg4_written(data) == d.reg4_written(data),
{
    let tp = p.timer_period;
    assert((((tp & 0x0700) | data as u16) & 0x0700) | data as u16 == (tp & 0x0700) | data as u16)
        by (bit_vector);
    let d = data as u16;
    assert(((((tp & 0x00ff) | ((d & 7) << 8u16)) & 0x00ff) | ((d & 7) << 8u16)) == ((tp & 0x00ff) | ((
    d & 7) << 8u16))) by (bit_vector);
    let ttp = t.timer_period;
    assert((((ttp & 0x0700) | data as u16) & 0x0700) | data as u16 == (ttp & 0x0700) | data as u16)
        by (bit_vector);
}

pub const PULSE_STATE_LEN: usize = 23;

impl Pulse {
    pub open spec fn encode_0(&self) -> Seq<u8> {
        seq![self.env_period]
            + seq![self.env_lvl]
            + seq![self.decay_lvl]
            + enc_bool(self.env_start)
    }

    pub open spec fn decodes_0(&self, b: Seq<u8>) -> bool {
        &&& b.len() == 4
        &&& self.env_period == b[0]
        &&& self.env_lvl == b[1]
        &&& self.decay_lvl == b[2]
        &&& self.env_start == dec_bool(b, 3)
    }

    pub open spec fn encode_1(&self) -> Seq<u8> {
        enc_bool(self.env_loop)
            + enc_bool(self.env_const)
            + seq![self.env_vol]
            + seq![self.swp_count]
    }

    pub open spec fn decodes_1(&self, b: Seq<u8>) -> bool {
        &&& b.len() == 4
        &&& self.env_loop == dec_bool(b, 0)
        &&& self.env_const == dec_bool(b, 1)
        &&& self.env_vol == b[2]
        &&& self.swp_count == b[3]
    }

    pub open spec fn encode_2(&self) -> Seq<u8> {
        seq![self.swp_period]
            + seq![self.swp_lvl]
            + enc_bool(self.swp_en)
            + enc_bool(self.swp_neg)
    }

    pub open spec fn decodes_2(&self, b: Seq<u8>) -> bool {
        &&& b.len() == 4
        &&& self.swp_period == b[0]
        &&& self.swp_lvl == b[1]
        &&& self.swp_en == dec_bool(b, 2)
        &&& self.swp_neg == dec_bool(b, 3)
    }

    pub open spec fn encode_3(&self) -> Seq<u8> {
        enc_bool(self.swp_rld)
            + enc_bool(self.muted)
            + seq![self.len_lvl]
            + enc_u16(self.timer_period)
    }

    pub open spec fn decodes_3(&self, b: Seq<u8>) -> bool {
        &&& b.len() == 5
        &&& self.swp_rld == dec_bool(b, 0)
        &&& self.muted == dec_bool(b, 1)
        &&& self.len_lvl == b[2]
        &&& self.timer_period == dec_u16(b, 3)
    }

    pub open spec fn encode_4(&self) -> Seq<u8> {
        enc_u16(self.timer_lvl)
            + seq![self.seq_wave]
            + seq![self.seq_cnt]
            + enc_bool(self.enabled)
    }

    pub open spec fn decodes_4(&self, b: Seq<u8>) -> bool {
        &&& b.len() == 5
        &&& self.timer_lvl == dec_u16(b, 0)
        &&& self.seq_wave == b[2]
        &&& self.seq_cnt == b[3]
        &&& self.enabled == dec_bool(b, 4)
    }

    pub open spec fn encode_5(&self) -> Seq<u8> {
        enc_bool(self.comple)
    }

    pub open spec fn decodes_5(&self, b: Seq<u8>) -> bool {
        &&& b.len() == 1
        &&& self.comple == dec_bool(b, 0)
    }

    /// The saved form of this state, field by field.
    #[verifier::opaque]
    pub open spec fn encode(&self) -> Seq<u8> {
        self.encode_0() + self.encode_1() + self.encode_2() + self.encode_3() + self.encode_4() + self.encode_5()
    }

    /// Whether this state is the one the saved bytes `b` describe.
    #[verifier::opaque]
    pub open spec fn decodes(&self, b: Seq<u8>) -> bool {
        &&& b.len() == 23
        &&& self.decodes_0(b.subrange(0, 4))
        &&& self.decodes_1(b.subrange(4, 8))
        &&& self.decodes_2(b.subrange(8, 12))
        &&& self.decodes_3(b.subrange(12, 17))
        &&& self.decodes_4(b.subrange(17, 22))
        &&& self.decodes_5(b.subrange(22, 23))
    }

    /// Equal in every saved field.
    #[verifier::opaque]
    pub open spec fn same_as(&self, o: Self) -> bool {
        &&& self.env_period == o.env_period
        &&& self.env_lvl == o.env_lvl
        &&& self.decay_lvl == o.decay_lvl
        &&& self.env_start == o.env_start
        &&& self.env_loop == o.env_loop
        &&& self.env_const == o.env_const
        &&& self.env_vol == o.env_vol
        &&& self.swp_count == o.swp_count
        &&& self.swp_period == o.swp_period
        &&& self.swp_lvl == o.swp_lvl
        &&& self.swp_en == o.swp_en
        &&& self.swp_neg == o.swp_neg
        &&& self.swp_rld == o.swp_rld
        &&& self.muted == o.muted
        &&& self.len_lvl == o.len_lvl
        &&& self.timer_period == o.timer_period
        &&& self.timer_lvl == o.timer_lvl
        &&& self.seq_wave == o.seq_wave
        &&& self.seq_cnt == o.seq_cnt
        &&& self.enabled == o.enabled
        &&& self.comple == o.comple
    }

    fn save_0(&self, out: &mut Vec<u8>)
        requires
            self.wf(),
        ensures
            final(out)@ == old(out)@ + self.encode_0(),
    {
        put_u8(out, self.env_period);
        put_u8(out, self.env_lvl);
        put_u8(out, self.decay_lvl);
        put_bool(out, self.env_start);
        assert(final(out)@ =~= old(out)@ + self.encode_0());
    }

    fn save_1(&self, out: &mut Vec<u8>)
        requires
            self.wf(),
        ensures
            final(out)@ == old(out)@ + self.encode_1(),
    {
        put_bool(out, self.env_loop);
        put_bool(out, self.env_const);
        put_u8(out, self.env_vol);
        put_u8(out, self.swp_count);
        assert(final(out)@ =~= old(out)@ + self.encode_1());
    }

    fn save_2(&self, out: &mut Vec<u8>)
        requires
            self.wf(),
        ensures
            final(out)@ == old(out)@ + self.encode_2(),
    {
        put_u8(out, self.swp_period);
        put_u8(out, self.swp_lvl);
        put_bool(out, self.swp_en);
        put_bool(out, self.swp_neg);
        assert(final(out)@ =~= old(out)@ + self.encode_2());
    }

    fn save_3(&self, out: &mut Vec<u8>)
        requires
            self.wf(),
        ensures
            final(out)@ == old(out)@ + self.encode_3(),
    {
        put_bool(out, self.swp_rld);
        put_bool(out, self.muted);
        put_u8(out, self.len_lvl);
        put_u16(out, self.timer_period);
        assert(final(out)@ =~= old(out)@ + self.encode_3());
    }

    fn save_4(&self, out: &mut Vec<u8>)
        requires
            self.wf(),
        ensures
            final(out)@ == old(out)@ + self.encode_4(),
    {
        put_u16(out, self.timer_lvl);
        put_u8(out, self.seq_wave);
        put_u8(out, self.seq_cnt);
        put_bool(out, self.enabled);
        assert(final(out)@ =~= old(out)@ + self.encode_4());
    }

    fn save_5(&self, out: &mut Vec<u8>)
        requires
            self.wf(),
        ensures
            final(out)@ == old(out)@ + self.encode_5(),
    {
        put_bool(out, self.comple);
        assert(final(out)@ =~= old(out)@ + self.encode_5());
    }

    pub fn save(&self, out: &mut Vec<u8>)
        requires
            self.wf(),
        ensures
            final(out)@ == old(out)@ + self.encode(),
            self.encode().len() == PULSE_STATE_LEN,
    {
        proof {
            reveal(Pulse::encode);
        }
        let ghost start = out@;
        self.save_0(out);
        proof {
            lemma_pulse_own_0(*self);
        }
        self.save_1(out);
        proof {
            lemma_pulse_own_1(*self);
        }
        self.save_2(out);
        proof {
            lemma_pulse_own_2(*self);
        }
        self.save_3(out);
        proof {
            lemma_pulse_own_3(*self);
        }
        self.save_4(out);
        proof {
            lemma_pulse_own_4(*self);
        }
        self.save_5(out);
        proof {
            lemma_pulse_own_5(*self);
        }
        assert(out@ =~= start + self.encode());
    }

    /// The state saved at `pos`, or `None` when the bytes run short or describe no
    /// consistent state.
    pub fn decode(buf: &Vec<u8>, pos: usize) -> (r: Option<Self>)
        ensures
            r matches Some(t) ==> t.wf() && pos + PULSE_STATE_LEN <= buf@.len() && t.decodes(
                buf@.subrange(pos as int, pos + PULSE_STATE_LEN)),
            (pos + PULSE_STATE_LEN <= buf@.len() && exists|t: Self| t.wf() && #[trigger] t.decodes(
                buf@.subrange(pos as int, pos + PULSE_STATE_LEN))) ==> r is Some,
    {
        if buf.len() < PULSE_STATE_LEN || pos > buf.len() - PULSE_STATE_LEN {
            return None;
        }
        let ghost b = buf@.subrange(pos as int, pos + PULSE_STATE_LEN);
        proof {
            reveal(Pulse::decodes);
        }
        let ghost b0 = b.subrange(0, 4);
        assert(b0 =~= buf@.subrange(pos + 0, pos + 4));
        let env_period = get_u8(buf, pos + 0);
        let env_lvl = get_u8(buf, pos + 1);
        let decay_lvl = get_u8(buf, pos + 2);
        let env_start = get_bool(buf, pos + 3);
        let ghost b1 = b.subrange(4, 8);
        assert(b1 =~= buf@.subrange(pos + 4, pos + 8));
        let env_loop = get_bool(buf, pos + 4);
        let env_const = get_bool(buf, pos + 5);
        let env_vol = get_u8(buf, pos + 6);
        let swp_count = get_u8(buf, pos + 7);
        let ghost b2 = b.subrange(8, 12);
        assert(b2 =~= buf@.subrange(pos + 8, pos + 12));
        let swp_period = get_u8(buf, pos + 8);
        let swp_lvl = get_u8(buf, pos + 9);
        let swp_en = get_bool(buf, pos + 10);
        let swp_neg = get_bool(buf, pos + 11);
        let ghost b3 = b.subrange(12, 17);
        assert(b3 =~= buf@.subrange(pos + 12, pos + 17));
        let swp_rld = get_bool(buf, pos + 12);
        let muted = get_bool(buf, pos + 13);
        let len_lvl = get_u8(buf, pos + 14);
        let timer_period = get_u16(buf, pos + 15);
        let ghost b4 = b.subrange(17, 22);
        assert(b4 =~= buf@.subrange(pos + 17, pos + 22));
        let timer_lvl = get_u16(buf, pos + 17);
        let seq_wave = get_u8(buf, pos + 19);
        let seq_cnt = get_u8(buf, pos + 20);
        let enabled = get_bool(buf, pos + 21);
        let ghost b5 = b.subrange(22, 23);
        assert(b5 =~= buf@.subrange(pos + 22, pos + 23));
        let comple = get_bool(buf, pos + 22);
        let t = Pulse { env_period, env_lvl, decay_lvl, env_start, env_loop, env_const, env_vol, swp_count, swp_period, swp_lvl, swp_en, swp_neg, swp_rld, muted, len_lvl, timer_period, timer_lvl, seq_wave, seq_cnt, enabled, comple };
        assert(t.decodes_0(b0));
        assert(t.decodes_1(b1));
        assert(t.decodes_2(b2));
        assert(t.decodes_3(b3));
        assert(t.decodes_4(b4));
        assert(t.decodes_5(b5));
        assert(t.decodes(b));
        if !t.check_wf() {
            proof {
                assert forall|u: Self| #[trigger] u.decodes(b) implies !u.wf() by {
                    lemma_pulse_unique(t, u, b);
                }
            }
            return None;
        }
        Some(t)
    }

    /// Restores the state saved at `pos`; on failure nothing changes.
    pub fn load(&mut self, buf: &Vec<u8>, pos: usize) -> (ok: bool)
        requires
            old(self).wf(),
        ensures
            final(self).wf(),
            ok ==> pos + PULSE_STATE_LEN <= buf@.len() && final(self).decodes(
                buf@.subrange(pos as int, pos + PULSE_STATE_LEN)),
            !ok ==> *final(self) == *old(self),
            (pos + PULSE_STATE_LEN <= buf@.len() && exists|t: Self| t.wf() && #[trigger] t.decodes(
                buf@.subrange(pos as int, pos + PULSE_STATE_LEN))) ==> ok,
    {
        match Self::decode(buf, pos) {
            Some(t) => {
                *self = t;
                true
            },
            None => false,
        }
    }
}

/// Round trip: what `save` writes decodes to the state saved, and any state decoding those
/// bytes equals it in every saved field.
pub proof fn lemma_pulse_round_trip(s: Pulse, t: Pulse)
    requires
        s.wf(),
        t.decodes(s.encode()),
    ensures
        s.decodes(s.encode()),
        t.same_as(s),
{
    lemma_pulse_decodes_own(s);
    lemma_pulse_unique(s, t, s.encode());
}

/// Two states decoding the same bytes agree in every saved field, and one is consistent
/// exactly when the other is.
pub proof fn lemma_pulse_unique(s: Pulse, t: Pulse, b: Seq<u8>)
    requires
        s.decodes(b),
        t.decodes(b),
    ensures
        t.same_as(s),
        t.wf() == s.wf(),
{
    reveal(Pulse::decodes);
    reveal(Pulse::same_as);
    lemma_pulse_unique_0(s, t, b.subrange(0, 4));
    lemma_pulse_unique_1(s, t, b.subrange(4, 8));
    lemma_pulse_unique_2(s, t, b.subrange(8, 12));
    lemma_pulse_unique_3(s, t, b.subrange(12, 17));
    lemma_pulse_unique_4(s, t, b.subrange(17, 22));
    lemma_pulse_unique_5(s, t, b.subrange(22, 23));
}

proof fn lemma_pulse_unique_0(s: Pulse, t: Pulse, b: Seq<u8>)
    requires
        s.decodes_0(b),
        t.decodes_0(b),
    ensures
        t.env_period == s.env_period,
        t.env_lvl == s.env_lvl,
        t.decay_lvl == s.decay_lvl,
        t.env_start == s.env_start,
{
}

proof fn lemma_pulse_unique_1(s: Pulse, t: Pulse, b: Seq<u8>)
    requires
        s.decodes_1(b),
        t.decodes_1(b),
    ensures
        t.env_loop == s.env_loop,
        t.env_const == s.env_const,
        t.env_vol == s.env_vol,
        t.swp_count == s.swp_count,
{
}

proof fn lemma_pulse_unique_2(s: Pulse, t: Pulse, b: Seq<u8>)
    requires
        s.decodes_2(b),
        t.decodes_2(b),
    ensures
        t.swp_period == s.swp_period,
        t.swp_lvl == s.swp_lvl,
        t.swp_en == s.swp_en,
        t.swp_neg == s.swp_neg,
{
}

proof fn lemma_pulse_unique_3(s: Pulse, t: Pulse, b: Seq<u8>)
    requires
        s.decodes_3(b),
        t.decodes_3(b),
    ensures
        t.swp_rld == s.swp_rld,
        t.muted == s.muted,
        t.len_lvl == s.len_lvl,
        t.timer_period == s.timer_period,
{
}

proof fn lemma_pulse_unique_4(s: Pulse, t: Pulse, b: Seq<u8>)
    requires
        s.decodes_4(b),
        t.decodes_4(b),
    ensures
        t.timer_lvl == s.timer_lvl,
        t.seq_wave == s.seq_wave,
        t.seq_cnt == s.seq_cnt,
        t.enabled == s.enabled,
{
}

proof fn lemma_pulse_unique_5(s: Pulse, t: Pulse, b: Seq<u8>)
    requires
        s.decodes_5(b),
        t.decodes_5(b),
    ensures
        t.comple == s.comple,
{
}

pub proof fn lemma_pulse_decodes_own(s: Pulse)
    requires
        s.wf(),
    ensures
        s.decodes(s.encode()),
        s.encode().len() == 23,
{
    reveal(Pulse::decodes);
    reveal(Pulse::encode);
    lemma_pulse_own_0(s);
    lemma_pulse_own_1(s);
    lemma_pulse_own_2(s);
    lemma_pulse_own_3(s);
    lemma_pulse_own_4(s);
    lemma_pulse_own_5(s);
    let e = s.encode();
    assert(e.subrange(0, 4) =~= s.encode_0());
    assert(e.subrange(4, 8) =~= s.encode_1());
    assert(e.subrange(8, 12) =~= s.encode_2());
    assert(e.subrange(12, 17) =~= s.encode_3());
    assert(e.subrange(17, 22) =~= s.encode_4());
    assert(e.subrange(22, 23) =~= s.encode_5());
}

proof fn lemma_pulse_own_0(s: Pulse)
    requires
        s.wf(),
    ensures
        s.encode_0().len() == 4,
        s.decodes_0(s.encode_0()),
{
    let e = s.encode_0();
    assert(e.subrange(0, 1) =~= seq![s.env_period]);
    lemma_dec_u8(e, 0, s.env_period);
    assert(e.subrange(1, 2) =~= seq![s.env_lvl]);
    lemma_dec_u8(e, 1, s.env_lvl);
    assert(e.subrange(2, 3) =~= seq![s.decay_lvl]);
    lemma_dec_u8(e, 2, s.decay_lvl);
    assert(e.subrange(3, 4) =~= enc_bool(s.env_start));
    lemma_dec_bool(e, 3, s.env_start);
}

proof fn lemma_pulse_own_1(s: Pulse)
    requires
        s.wf(),
    ensures
        s.encode_1().len() == 4,
        s.decodes_1(s.encode_1()),
{
    let e = s.encode_1();
    assert(e.subrange(0, 1) =~= enc_bool(s.env_loop));
    lemma_dec_bool(e, 0, s.env_loop);
    assert(e.subrange(1, 2) =~= enc_bool(s.env_const));
    lemma_dec_bool(e, 1, s.env_const);
    assert(e.subrange(2, 3) =~= seq![s.env_vol]);
    lemma_dec_u8(e, 2, s.env_vol);
    assert(e.subrange(3, 4) =~= seq![s.swp_count]);
    lemma_dec_u8(e, 3, s.swp_count);
}

proof fn lemma_pulse_own_2(s: Pulse)
    requires
        s.wf(),
    ensures
        s.encode_2().len() == 4,
        s.decodes_2(s.encode_2()),
{
    let e = s.encode_2();
    assert(e.subrange(0, 1) =~= seq![s.swp_period]);
    lemma_dec_u8(e, 0, s.swp_period);
    assert(e.subrange(1, 2) =~= seq![s.swp_lvl]);
    lemma_dec_u8(e, 1, s.swp_lvl);
    assert(e.subrange(2, 3) =~= enc_bool(s.swp_en));
    lemma_dec_bool(e, 2, s.swp_en);
    assert(e.subrange(3, 4) =~= enc_bool(s.swp_neg));
    lemma_dec_bool(e, 3, s.swp_neg);
}

proof fn lemma_pulse_own_3(s: Pulse)
    requires
        s.wf(),
    ensures
        s.encode_3().len() == 5,
        s.decodes_3(s.encode_3()),
{
    let e = s.encode_3();
    assert(e.subrange(0, 1) =~= enc_bool(s.swp_rld));
    lemma_dec_bool(e, 0, s.swp_rld);
    assert(e.subrange(1, 2) =~= enc_bool(s.muted));
    lemma_dec_bool(e, 1, s.muted);
    assert(e.subrange(2, 3) =~= seq![s.len_lvl]);
    lemma_dec_u8(e, 2, s.len_lvl);
    assert(e.subrange(3, 5) =~= enc_u16(s.timer_period));
    lemma_dec_u16(e, 3, s.timer_period);
}

proof fn lemma_pulse_own_4(s: Pulse)
    requires
        s.wf(),
    ensures
        s.encode_4().len() == 5,
        s.decodes_4(s.encode_4()),
{
    let e = s.encode_4();
    assert(e.subrange(0, 2) =~= enc_u16(s.timer_lvl));
    lemma_dec_u16(e, 0, s.timer_lvl);
    assert(e.subrange(2, 3) =~= seq![s.seq_wave]);
    lemma_dec_u8(e, 2, s.seq_wave);
    assert(e.subrange(3, 4) =~= seq![s.seq_cnt]);
    lemma_dec_u8(e, 3, s.seq_cnt);
    assert(e.subrange(4, 5) =~= enc_bool(s.enabled));
    lemma_dec_bool(e, 4, s.enabled);
}

proof fn lemma_pulse_own_5(s: Pulse)
    requires
        s.wf(),
    ensures
        s.encode_5().len() == 1,
        s.decodes_5(s.encode_5()),
{
    let e = s.encode_5();
    assert(e.subrange(0, 1) =~= enc_bool(s.comple));
    lemma_dec_bool(e, 0, s.comple);
}

pub const TRIANGLE_STATE_LEN: usize = 11;

impl Triangle {
    pub open spec fn encode_0(&self) -> Seq<u8> {
        enc_bool(self.cnt_rld)
            + seq![self.cnt_lvl]
            + seq![self.cnt_rld_val]
            + seq![self.len_lvl]
    }

    pub open spec fn decodes_0(&self, b: Seq<u8>) -> bool {
        &&& b.len() == 4
        &&& self.cnt_rld == dec_bool(b, 0)
        &&& self.cnt_lvl == b[1]
        &&& self.cnt_rld_val == b[2]
        &&& self.len_lvl == b[3]
    }

    pub open spec fn encode_1(&self) -> Seq<u8> {
        enc_u16(self.timer_period)
            + enc_u16(self.timer_lvl)
            + seq![self.seq_cnt]
            + enc_bool(self.enabled)
    }

    pub open spec fn decodes_1(&self, b: Seq<u8>) -> bool {
        &&& b.len() == 6
        &&& self.timer_period == dec_u16(b, 0)
        &&& self.timer_lvl == dec_u16(b, 2)
        &&& self.seq_cnt == b[4]
        &&& self.enabled == dec_bool(b, 5)
    }

    pub open spec fn encode_2(&self) -> Seq<u8> {
        enc_bool(self.ctrl)
    }

    pub open spec fn decodes_2(&self, b: Seq<u8>) -> bool {
        &&& b.len() == 1
        &&& self.ctrl == dec_bool(b, 0)
    }

    /// The saved form of this state, field by field.
    #[verifier::opaque]
    pub open spec fn encode(&self) -> Seq<u8> {
        self.encode_0() + self.encode_1() + self.encode_2()
    }

    /// Whether this state is the one the saved bytes `b` describe.
    #[verifier::opaque]
    pub open spec fn decodes(&self, b: Seq<u8>) -> bool {
        &&& b.len() == 11
        &&& self.decodes_0(b.subrange(0, 4))
        &&& self.decodes_1(b.subrange(4, 10))
        &&& self.decodes_2(b.subrange(10, 11))
    }

    /// Equal in every saved field.
    #[verifier::opaque]
    pub open spec fn same_as(&self, o: Self) -> bool {
        &&& self.cnt_rld == o.cnt_rld
        &&& self.cnt_lvl == o.cnt_lvl
        &&& self.cnt_rld_val == o.cnt_rld_val
        &&& self.len_lvl == o.len_lvl
        &&& self.timer_period == o.timer_period
        &&& self.timer_lvl == o.timer_lvl
        &&& self.seq_cnt == o.seq_cnt
        &&& self.enabled == o.enabled
        &&& self.ctrl == o.ctrl
    }

    fn save_0(&self, out: &mut Vec<u8>)
        requires
            self.wf(),
        ensures
            final(out)@ == old(out)@ + self.encode_0(),
    {
        put_bool(out, self.cnt_rld);
        put_u8(out, self.cnt_lvl);
        put_u8(out, self.cnt_rld_val);
        put_u8(out, self.len_lvl);
        assert(final(out)@ =~= old(out)@ + self.encode_0());
    }

    fn save_1(&self, out: &mut Vec<u8>)
        requires
            self.wf(),
        ensures
            final(out)@ == old(out)@ + self.encode_1(),
    {
        put_u16(out, self.timer_period);
        put_u16(out, self.timer_lvl);
        put_u8(out, self.seq_cnt);
        put_bool(out, self.enabled);
        assert(final(out)@ =~= old(out)@ + self.encode_1());
    }

    fn save_2(&self, out: &mut Vec<u8>)
        requires
            self.wf(),
        ensures
            final(out)@ == old(out)@ + self.encode_2(),
    {
        put_bool(out, self.ctrl);
        assert(final(out)@ =~= old(out)@ + self.encode_2());
    }

    pub fn save(&self, out: &mut Vec<u8>)
        requires
            self.wf(),
        ensures
            final(out)@ == old(out)@ + self.encode(),
            self.encode().len() == TRIANGLE_STATE_LEN,
    {
        proof {
            reveal(Triangle::encode);
        }
        let ghost start = out@;
        self.save_0(out);
        proof {
            lemma_triangle_own_0(*self);
        }
        self.save_1(out);
        proof {
            lemma_triangle_own_1(*self);
        }
        self.save_2(out);
        proof {
            lemma_triangle_own_2(*self);
        }
        assert(out@ =~= start + self.encode());
    }

    /// The state saved at `pos`, or `None` when the bytes run short or describe no
    /// consistent state.
    pub fn decode(buf: &Vec<u8>, pos: usize) -> (r: Option<Self>)
        ensures
            r matches Some(t) ==> t.wf() && pos + TRIANGLE_STATE_LEN <= buf@.len() && t.decodes(
                buf@.subrange(pos as int, pos + TRIANGLE_STATE_LEN)),
            (pos + TRIANGLE_STATE_LEN <= buf@.len() && exists|t: Self| t.wf() && #[trigger] t.decodes(
                buf@.subrange(pos as int, pos + TRIANGLE_STATE_LEN))) ==> r is Some,
    {
        if buf.len() < TRIANGLE_STATE_LEN || pos > buf.len() - TRIANGLE_STATE_LEN {
            return None;
        }
        let ghost b = buf@.subrange(pos as int, pos + TRIANGLE_STATE_LEN);
        proof {
            reveal(Triangle::decodes);
        }
        let ghost b0 = b.subrange(0, 4);
        assert(b0 =~= buf@.subrange(pos + 0, pos + 4));
        let cnt_rld = get_bool(buf, pos + 0);
        let cnt_lvl = get_u8(buf, pos + 1);
        let cnt_rld_val = get_u8(buf, pos + 2);
        let len_lvl = get_u8(buf, pos + 3);
        let ghost b1 = b.subrange(4, 10);
        assert(b1 =~= buf@.subrange(pos + 4, pos + 10));
        let timer_period = get_u16(buf, pos + 4);
        let timer_lvl = get_u16(buf, pos + 6);
        let seq_cnt = get_u8(buf, pos + 8);
        let enabled = get_bool(buf, pos + 9);
        let ghost b2 = b.subrange(10, 11);
        assert(b2 =~= buf@.subrange(pos + 10, pos + 11));
        let ctrl = get_bool(buf, pos + 10);
        let t = Triangle { cnt_rld, cnt_lvl, cnt_rld_val, len_lvl, timer_period, timer_lvl, seq_cnt, enabled, ctrl };
        assert(t.decodes_0(b0));
        assert(t.decodes_1(b1));
        assert(t.decodes_2(b2));
        assert(t.decodes(b));
        if !t.check_wf() {
            proof {
                assert forall|u: Self| #[trigger] u.decodes(b) implies !u.wf() by {
                    lemma_triangle_unique(t, u, b);
                }
            }
            return None;
        }
        Some(t)
    }

    /// Restores the state saved at `pos`; on failure nothing changes.
    pub fn load(&mut self, buf: &Vec<u8>, pos: usize) -> (ok: bool)
        requires
            old(self).wf(),
        ensures
            final(self).wf(),
            ok ==> pos + TRIANGLE_STATE_LEN <= buf@.len() && final(self).decodes(
                buf@.subrange(pos as int, pos + TRIANGLE_STATE_LEN)),
            !ok ==> *final(self) == *old(self),
            (pos + TRIANGLE_STATE_LEN <= buf@.len() && exists|t: Self| t.wf() && #[trigger] t.decodes(
                buf@.subrange(pos as int, pos + TRIANGLE_STATE_LEN))) ==> ok,
    {
        match Self::decode(buf, pos) {
            Some(t) => {
                *self = t;
                true
            },
            None => false,
        }
    }
}

/// Round trip: what `save` writes decodes to the state saved, and any state decoding those
/// bytes equals it in every saved field.
pub proof fn lemma_triangle_round_trip(s: Triangle, t: Triangle)
    requires
        s.wf(),
        t.decodes(s.encode()),
    ensures
        s.decodes(s.encode()),
        t.same_as(s),
{
    lemma_triangle_decodes_own(s);
    lemma_triangle_unique(s, t, s.encode());
}

/// Two states decoding the same bytes agree in every saved field, and one is consistent
/// exactly when the other is.
pub proof fn lemma_triangle_unique(s: Triangle, t: Triangle, b: Seq<u8>)
    requires
        s.decodes(b),
        t.decodes(b),
    ensures
        t.same_as(s),
        t.wf() == s.wf(),
{
    reveal(Triangle::decodes);
    reveal(Triangle::same_as);
    lemma_triangle_unique_0(s, t, b.subrange(0, 4));
    lemma_triangle_unique_1(s, t, b.subrange(4, 10));
    lemma_triangle_unique_2(s, t, b.subrange(10, 11));
}

proof fn lemma_triangle_unique_0(s: Triangle, t: Triangle, b: Seq<u8>)
    requires
        s.decodes_0(b),
        t.decodes_0(b),
    ensures
        t.cnt_rld == s.cnt_rld,
        t.cnt_lvl == s.cnt_lvl,
        t.cnt_rld_val == s.cnt_rld_val,
        t.len_lvl == s.len_lvl,
{
}

proof fn lemma_triangle_unique_1(s: Triangle, t: Triangle, b: Seq<u8>)
    requires
        s.decodes_1(b),
        t.decodes_1(b),
    ensures
        t.timer_period == s.timer_period,
        t.timer_lvl == s.timer_lvl,
        t.seq_cnt == s.seq_cnt,
        t.enabled == s.enabled,
{
}

proof fn lemma_triangle_unique_2(s: Triangle, t: Triangle, b: Seq<u8>)
    requires
        s.decodes_2(b),
        t.decodes_2(b),
    ensures
        t.ctrl == s.ctrl,
{
}

pub proof fn lemma_triangle_decodes_own(s: Triangle)
    requires
        s.wf(),
    ensures
        s.decodes(s.encode()),
        s.encode().len() == 11,
{
    reveal(Triangle::decodes);
    reveal(Triangle::encode);
    lemma_triangle_own_0(s);
    lemma_triangle_own_1(s);
    lemma_triangle_own_2(s);
    let e = s.encode();
    assert(e.subrange(0, 4) =~= s.encode_0());
    assert(e.subrange(4, 10) =~= s.encode_1());
    assert(e.subrange(10, 11) =~= s.encode_2());
}

proof fn lemma_triangle_own_0(s: Triangle)
    requires
        s.wf(),
    ensures
        s.encode_0().len() == 4,
        s.decodes_0(s.encode_0()),
{
    let e = s.encode_0();
    assert(e.subrange(0, 1) =~= enc_bool(s.cnt_rld));
    lemma_dec_bool(e, 0, s.cnt_rld);
    assert(e.subrange(1, 2) =~= seq![s.cnt_lvl]);
    lemma_dec_u8(e, 1, s.cnt_lvl);
    assert(e.subrange(2, 3) =~= seq![s.cnt_rld_val]);
    lemma_dec_u8(e, 2, s.cnt_rld_val);
    assert(e.subrange(3, 4) =~= seq![s.len_lvl]);
    lemma_dec_u8(e, 3, s.len_lvl);
}

proof fn lemma_triangle_own_1(s: Triangle)
    requires
        s.wf(),
    ensures
        s.encode_1().len() == 6,
        s.decodes_1(s.encode_1()),
{
    let e = s.encode_1();
    assert(e.subrange(0, 2) =~= enc_u16(s.timer_period));
    lemma_dec_u16(e, 0, s.timer_period);
    assert(e.subrange(2, 4) =~= enc_u16(s.timer_lvl));
    lemma_dec_u16(e, 2, s.timer_lvl);
    assert(e.subrange(4, 5) =~= seq![s.seq_cnt]);
    lemma_dec_u8(e, 4, s.seq_cnt);
    assert(e.subrange(5, 6) =~= enc_bool(s.enabled));
    lemma_dec_bool(e, 5, s.enabled);
}

proof fn lemma_triangle_own_2(s: Triangle)
    requires
        s.wf(),
    ensures
        s.encode_2().len() == 1,
        s.decodes_2(s.encode_2()),
{
    let e = s.encode_2();
    assert(e.subrange(0, 1) =~= enc_bool(s.ctrl));
    lemma_dec_bool(e, 0, s.ctrl);
}

pub const NOISE_STATE_LEN: usize = 16;

impl Noise {
    pub open spec fn encode_0(&self) -> Seq<u8> {
        seq![self.env_period]
            + seq![self.env_lvl]
            + seq![self.decay_lvl]
            + enc_bool(self.env_start)
    }

    pub open spec fn decodes_0(&self, b: Seq<u8>) -> bool {
        &&& b.len() == 4
        &&& self.env_period == b[0]
        &&& self.env_lvl == b[1]
        &&& self.decay_lvl == b[2]
        &&& self.env_start == dec_bool(b, 3)
    }

    pub open spec fn encode_1(&self) -> Seq<u8> {
        enc_bool(self.env_loop)
            + enc_bool(self.env_const)
            + seq![self.env_vol]
            + seq![self.len_lvl]
    }

    pub open spec fn decodes_1(&self, b: Seq<u8>) -> bool {
        &&& b.len() == 4
        &&& self.env_loop == dec_bool(b, 0)
        &&& self.env_const == dec_bool(b, 1)
        &&& self.env_vol == b[2]
        &&& self.len_lvl == b[3]
    }

    pub open spec fn encode_2(&self) -> Seq<u8> {
        enc_u16(self.timer_period)
            + enc_u16(self.timer_lvl)
            + enc_u16(self.shift_reg)
            + enc_bool(self.loop_noise)
    }

    pub open spec fn decodes_2(&self, b: Seq<u8>) -> bool {
        &&& b.len() == 7
        &&& self.timer_period == dec_u16(b, 0)
        &&& self.timer_lvl == dec_u16(b, 2)
        &&& self.shift_reg == dec_u16(b, 4)
        &&& self.loop_noise == dec_bool(b, 6)
    }

    pub open spec fn encode_3(&self) -> Seq<u8> {
        enc_bool(self.enabled)
    }

    pub open spec fn decodes_3(&self, b: Seq<u8>) -> bool {
        &&& b.len() == 1
        &&& self.enabled == dec_bool(b, 0)
    }

    /// The saved form of this state, field by field.
    #[verifier::opaque]
    pub open spec fn encode(&self) -> Seq<u8> {
        self.encode_0() + self.encode_1() + self.encode_2() + self.encode_3()
    }

    /// Whether this state is the one the saved bytes `b` describe.
    #[verifier::opaque]
    pub open spec fn decodes(&self, b: Seq<u8>) -> bool {
        &&& b.len() == 16
        &&& self.decodes_0(b.subrange(0, 4))
        &&& self.decodes_1(b.subrange(4, 8))
        &&& self.decodes_2(b.subrange(8, 15))
        &&& self.decodes_3(b.subrange(15, 16))
    }

    /// Equal in every saved field.
    #[verifier::opaque]
    pub open spec fn same_as(&self, o: Self) -> bool {
        &&& self.env_period == o.env_period
        &&& self.env_lvl == o.env_lvl
        &&& self.decay_lvl == o.decay_lvl
        &&& self.env_start == o.env_start
        &&& self.env_loop == o.env_loop
        &&& self.env_const == o.env_const
        &&& self.env_vol == o.env_vol
        &&& self.len_lvl == o.len_lvl
        &&& self.timer_period == o.timer_period
        &&& self.timer_lvl == o.timer_lvl
        &&& self.shift_reg == o.shift_reg
        &&& self.loop_noise == o.loop_noise
        &&& self.enabled == o.enabled
    }

    fn save_0(&self, out: &mut Vec<u8>)
        requires
            self.wf(),
        ensures
            final(out)@ == old(out)@ + self.encode_0(),
    {
        put_u8(out, self.env_period);
        put_u8(out, self.env_lvl);
        put_u8(out, self.decay_lvl);
        put_bool(out, self.env_start);
        assert(final(out)@ =~= old(out)@ + self.encode_0());
    }

    fn save_1(&self, out: &mut Vec<u8>)
        requires
            self.wf(),
        ensures
            final(out)@ == old(out)@ + self.encode_1(),
    {
        put_bool(out, self.env_loop);
        put_bool(out, self.env_const);
        put_u8(out, self.env_vol);
        put_u8(out, self.len_lvl);
        assert(final(out)@ =~= old(out)@ + self.encode_1());
    }

    fn save_2(&self, out: &mut Vec<u8>)
        requires
            self.wf(),
        ensures
            final(out)@ == old(out)@ + self.encode_2(),
    {
        put_u16(out, self.timer_period);
        put_u16(out, self.timer_lvl);
        put_u16(out, self.shift_reg);
        put_bool(out, self.loop_noise);
        assert(final(out)@ =~= old(out)@ + self.encode_2());
    }

    fn save_3(&self, out: &mut Vec<u8>)
        requires
            self.wf(),
        ensures
            final(out)@ == old(out)@ + self.encode_3(),
    {
        put_bool(out, self.enabled);
        assert(final(out)@ =~= old(out)@ + self.encode_3());
    }

    pub fn save(&self, out: &mut Vec<u8>)
        requires
            self.wf(),
        ensures
            final(out)@ == old(out)@ + self.encode(),
            self.encode().len() == NOISE_STATE_LEN,
    {
        proof {
            reveal(Noise::encode);
        }
        let ghost start = out@;
        self.save_0(out);
        proof {
            lemma_noise_own_0(*self);
        }
        self.save_1(out);
        proof {
            lemma_noise_own_1(*self);
        }
        self.save_2(out);
        proof {
            lemma_noise_own_2(*self);
        }
        self.save_3(out);
        proof {
            lemma_noise_own_3(*self);
        }
        assert(out@ =~= start + self.encode());
    }

    /// The state saved at `pos`, or `None` when the bytes run short or describe no
    /// consistent state.
    pub fn decode(buf: &Vec<u8>, pos: usize) -> (r: Option<Self>)
        ensures
            r matches Some(t) ==> t.wf() && pos + NOISE_STATE_LEN <= buf@.len() && t.decodes(
                buf@.subrange(pos as int, pos + NOISE_STATE_LEN)),
            (pos + NOISE_STATE_LEN <= buf@.len() && exists|t: Self| t.wf() && #[trigger] t.decodes(
                buf@.subrange(pos as int, pos + NOISE_STATE_LEN))) ==> r is Some,
    {
        if buf.len() < NOISE_STATE_LEN || pos > buf.len() - NOISE_STATE_LEN {
            return None;
        }
        let ghost b = buf@.subrange(pos as int, pos + NOISE_STATE_LEN);
        proof {
            reveal(Noise::decodes);
        }
        let ghost b0 = b.subrange(0, 4);
        assert(b0 =~= buf@.subrange(pos + 0, pos + 4));
        let env_period = get_u8(buf, pos + 0);
        let env_lvl = get_u8(buf, pos + 1);
        let decay_lvl = get_u8(buf, pos + 2);
        let env_start = get_bool(buf, pos + 3);
        let ghost b1 = b.subrange(4, 8);
        assert(b1 =~= buf@.subrange(pos + 4, pos + 8));
        let env_loop = get_bool(buf, pos + 4);
        let env_const = get_bool(buf, pos + 5);
        let env_vol = get_u8(buf, pos + 6);
        let len_lvl = get_u8(buf, pos + 7);
        let ghost b2 = b.subrange(8, 15);
        assert(b2 =~= buf@.subrange(pos + 8, pos + 15));
        let timer_period = get_u16(buf, pos + 8);
        let timer_lvl = get_u16(buf, pos + 10);
        let shift_reg = get_u16(buf, pos + 12);
        let loop_noise = get_bool(buf, pos + 14);
        let ghost b3 = b.subrange(15, 16);
        assert(b3 =~= buf@.subrange(pos + 15, pos + 16));
        let enabled = get_bool(buf, pos + 15);
        let t = Noise { env_period, env_lvl, decay_lvl, env_start, env_loop, env_const, env_vol, len_lvl, timer_period, timer_lvl, shift_reg, loop_noise, enabled };
        assert(t.decodes_0(b0));
        assert(t.decodes_1(b1));
        assert(t.decodes_2(b2));
        assert(t.decodes_3(b3));
        assert(t.decodes(b));
        if !t.check_wf() {
            proof {
                assert forall|u: Self| #[trigger] u.decodes(b) implies !u.wf() by {
                    lemma_noise_unique(t, u, b);
                }
            }
            return None;
        }
        Some(t)
    }

    /// Restores the state saved at `pos`; on failure nothing changes.
    pub fn load(&mut self, buf: &Vec<u8>, pos: usize) -> (ok: bool)
        requires
            old(self).wf(),
        ensures
            final(self).wf(),
            ok ==> pos + NOISE_STATE_LEN <= buf@.len() && final(self).decodes(
                buf@.subrange(pos as int, pos + NOISE_STATE_LEN)),
            !ok ==> *final(self) == *old(self),
            (pos + NOISE_STATE_LEN <= buf@.len() && exists|t: Self| t.wf() && #[trigger] t.decodes(
                buf@.subrange(pos as int, pos + NOISE_STATE_LEN))) ==> ok,
    {
        match Self::decode(buf, pos) {
            Some(t) => {
                *self = t;
                true
            },
            None => false,
        }
    }
}

/// Round trip: what `save` writes decodes to the state saved, and any state decoding those
/// bytes equals it in every saved field.
pub proof fn lemma_noise_round_trip(s: Noise, t: Noise)
    requires
        s.wf(),
        t.decodes(s.encode()),
    ensures
        s.decodes(s.encode()),
        t.same_as(s),
{
    lemma_noise_decodes_own(s);
    lemma_noise_unique(s, t, s.encode());
}

/// Two states decoding the same bytes agree in every saved field, and one is consistent
/// exactly when the other is.
pub proof fn lemma_noise_unique(s: Noise, t: Noise, b: Seq<u8>)
    requires
        s.decodes(b),
        t.decodes(b),
    ensures
        t.same_as(s),
        t.wf() == s.wf(),
{
    reveal(Noise::decodes);
    reveal(Noise::same_as);
    lemma_noise_unique_0(s, t, b.subrange(0, 4));
    lemma_noise_unique_1(s, t, b.subrange(4, 8));
    lemma_noise_unique_2(s, t, b.subrange(8, 15));
    lemma_noise_unique_3(s, t, b.subrange(15, 16));
}

proof fn lemma_noise_unique_0(s: Noise, t: Noise, b: Seq<u8>)
    requires
        s.decodes_0(b),
        t.decodes_0(b),
    ensures
        t.env_period == s.env_period,
        t.env_lvl == s.env_lvl,
        t.decay_lvl == s.decay_lvl,
        t.env_start == s.env_start,
{
}

proof fn lemma_noise_unique_1(s: Noise, t: Noise, b: Seq<u8>)
    requires
        s.decodes_1(b),
        t.decodes_1(b),
    ensures
        t.env_loop == s.env_loop,
        t.env_const == s.env_const,
        t.env_vol == s.env_vol,
        t.len_lvl == s.len_lvl,
{
}

proof fn lemma_noise_unique_2(s: Noise, t: Noise, b: Seq<u8>)
    requires
        s.decodes_2(b),
        t.decodes_2(b),
    ensures
        t.timer_period == s.timer_period,
        t.timer_lvl == s.timer_lvl,
        t.shift_reg == s.shift_reg,
        t.loop_noise == s.loop_noise,
{
}

proof fn lemma_noise_unique_3(s: Noise, t: Noise, b: Seq<u8>)
    requires
        s.decodes_3(b),
        t.decodes_3(b),
    ensures
        t.enabled == s.enabled,
{
}

pub proof fn lemma_noise_decodes_own(s: Noise)
    requires
        s.wf(),
    ensures
        s.decodes(s.encode()),
        s.encode().len() == 16,
{
    reveal(Noise::decodes);
    reveal(Noise::encode);
    lemma_noise_own_0(s);
    lemma_noise_own_1(s);
    lemma_noise_own_2(s);
    lemma_noise_own_3(s);
    let e = s.encode();
    assert(e.subrange(0, 4) =~= s.encode_0());
    assert(e.subrange(4, 8) =~= s.encode_1());
    assert(e.subrange(8, 15) =~= s.encode_2());
    assert(e.subrange(15, 16) =~= s.encode_3());
}

proof fn lemma_noise_own_0(s: Noise)
    requires
        s.wf(),
    ensures
        s.encode_0().len() == 4,
        s.decodes_0(s.encode_0()),
{
    let e = s.encode_0();
    assert(e.subrange(0, 1) =~= seq![s.env_period]);
    lemma_dec_u8(e, 0, s.env_period);
    assert(e.subrange(1, 2) =~= seq![s.env_lvl]);
    lemma_dec_u8(e, 1, s.env_lvl);
    assert(e.subrange(2, 3) =~= seq![s.decay_lvl]);
    lemma_dec_u8(e, 2, s.decay_lvl);
    assert(e.subrange(3, 4) =~= enc_bool(s.env_start));
    lemma_dec_bool(e, 3, s.env_start);
}

proof fn lemma_noise_own_1(s: Noise)
    requires
        s.wf(),
    ensures
        s.encode_1().len() == 4,
        s.decodes_1(s.encode_1()),
{
    let e = s.encode_1();
    assert(e.subrange(0, 1) =~= enc_bool(s.env_loop));
    lemma_dec_bool(e, 0, s.env_loop);
    assert(e.subrange(1, 2) =~= enc_bool(s.env_const));
    lemma_dec_bool(e, 1, s.env_const);
    assert(e.subrange(2, 3) =~= seq![s.env_vol]);
    lemma_dec_u8(e, 2, s.env_vol);
    assert(e.subrange(3, 4) =~= seq![s.len_lvl]);
    lemma_dec_u8(e, 3, s.len_lvl);
}

proof fn lemma_noise_own_2(s: Noise)
    requires
        s.wf(),
    ensures
        s.encode_2().len() == 7,
        s.decodes_2(s.encode_2()),
{
    let e = s.encode_2();
    assert(e.subrange(0, 2) =~= enc_u16(s.timer_period));
    lemma_dec_u16(e, 0, s.timer_period);
    assert(e.subrange(2, 4) =~= enc_u16(s.timer_lvl));
    lemma_dec_u16(e, 2, s.timer_lvl);
    assert(e.subrange(4, 6) =~= enc_u16(s.shift_reg));
    lemma_dec_u16(e, 4, s.shift_reg);
    assert(e.subrange(6, 7) =~= enc_bool(s.loop_noise));
    lemma_dec_bool(e, 6, s.loop_noise);
}

proof fn lemma_noise_own_3(s: Noise)
    requires
        s.wf(),
    ensures
        s.encode_3().len() == 1,
        s.decodes_3(s.encode_3()),
{
    let e = s.encode_3();
    assert(e.subrange(0, 1) =~= enc_bool(s.enabled));
    lemma_dec_bool(e, 0, s.enabled);
}

pub const DMC_STATE_LEN: usize = 18;

impl DMC {
    pub open spec fn encode_0(&self) -> Seq<u8> {
        enc_bool(self.dmc_loop)
            + seq![self.dmc_cnt]
            + enc_bool(self.irq_enabled)
            + enc_u16(self.sample_addr)
    }

    pub open spec fn decodes_0(&self, b: Seq<u8>) -> bool {
        &&& b.len() == 5
        &&& self.dmc_loop == dec_bool(b, 0)
        &&& self.dmc_cnt == b[1]
        &&& self.irq_enabled == dec_bool(b, 2)
        &&& self.sample_addr == dec_u16(b, 3)
    }

    pub open spec fn encode_1(&self) -> Seq<u8> {
        enc_u16(self.sample_len)
            + seq![self.shift_reg]
            + enc_u16(self.cur_addr)
            + enc_u16(self.rem_len)
    }

    pub open spec fn decodes_1(&self, b: Seq<u8>) -> bool {
        &&& b.len() == 7
        &&& self.sample_len == dec_u16(b, 0)
        &&& self.shift_reg == b[2]
        &&& self.cur_addr == dec_u16(b, 3)
        &&& self.rem_len == dec_u16(b, 5)
    }

    pub open spec fn encode_2(&self) -> Seq<u8> {
        seq![self.level]
            + enc_u16(self.timer_lvl)
            + enc_u16(self.timer_period)
            + enc_bool(self.enabled)
    }

    pub open spec fn decodes_2(&self, b: Seq<u8>) -> bool {
        &&& b.len() == 6
        &&& self.level == b[0]
        &&& self.timer_lvl == dec_u16(b, 1)
        &&& self.timer_period == dec_u16(b, 3)
        &&& self.enabled == dec_bool(b, 5)
    }

    /// The saved form of this state, field by field.
    #[verifier::opaque]
    pub open spec fn encode(&self) -> Seq<u8> {
        self.encode_0() + self.encode_1() + self.encode_2()
    }

    /// Whether this state is the one the saved bytes `b` describe.
    #[verifier::opaque]
    pub open spec fn decodes(&self, b: Seq<u8>) -> bool {
        &&& b.len() == 18
        &&& self.decodes_0(b.subrange(0, 5))
        &&& self.decodes_1(b.subrange(5, 12))
        &&& self.decodes_2(b.subrange(12, 18))
    }

    /// Equal in every saved field.
    #[verifier::opaque]
    pub open spec fn same_as(&self, o: Self) -> bool {
        &&& self.dmc_loop == o.dmc_loop
        &&& self.dmc_cnt == o.dmc_cnt
        &&& self.irq_enabled == o.irq_enabled
        &&& self.sample_addr == o.sample_addr
        &&& self.sample_len == o.sample_len
        &&& self.shift_reg == o.shift_reg
        &&& self.cur_addr == o.cur_addr
        &&& self.rem_len == o.rem_len
        &&& self.level == o.level
        &&& self.timer_lvl == o.timer_lvl
        &&& self.timer_period == o.timer_period
        &&& self.enabled == o.enabled
    }

    fn save_0(&self, out: &mut Vec<u8>)
        requires
            self.wf(),
        ensures
            final(out)@ == old(out)@ + self.encode_0(),
    {
        put_bool(out, self.dmc_loop);
        put_u8(out, self.dmc_cnt);
        put_bool(out, self.irq_enabled);
        put_u16(out, self.sample_addr);
        assert(final(out)@ =~= old(out)@ + self.encode_0());
    }

    fn save_1(&self, out: &mut Vec<u8>)
        requires
            self.wf(),
        ensures
            final(out)@ == old(out)@ + self.encode_1(),
    {
        put_u16(out, self.sample_len);
        put_u8(out, self.shift_reg);
        put_u16(out, self.cur_addr);
        put_u16(out, self.rem_len);
        assert(final(out)@ =~= old(out)@ + self.encode_1());
    }

    fn save_2(&self, out: &mut Vec<u8>)
        requires
            self.wf(),
        ensures
            final(out)@ == old(out)@ + self.encode_2(),
    {
        put_u8(out, self.level);
        put_u16(out, self.timer_lvl);
        put_u16(out, self.timer_period);
        put_bool(out, self.enabled);
        assert(final(out)@ =~= old(out)@ + self.encode_2());
    }

    pub fn save(&self, out: &mut Vec<u8>)
        requires
            self.wf(),
        ensures
            final(out)@ == old(out)@ + self.encode(),
            self.encode().len() == DMC_STATE_LEN,
    {
        proof {
            reveal(DMC::encode);
        }
        let ghost start = out@;
        self.save_0(out);
        proof {
            lemma_dmc_own_0(*self);
        }
        self.save_1(out);
        proof {
            lemma_dmc_own_1(*self);
        }
        self.save_2(out);
        proof {
            lemma_dmc_own_2(*self);
        }
        assert(out@ =~= start + self.encode());
    }

    /// The state saved at `pos`, or `None` when the bytes run short or describe no
    /// consistent state.
    pub fn decode(buf: &Vec<u8>, pos: usize) -> (r: Option<Self>)
        ensures
            r matches Some(t) ==> t.wf() && pos + DMC_STATE_LEN <= buf@.len() && t.decodes(
                buf@.subrange(pos as int, pos + DMC_STATE_LEN)),
            (pos + DMC_STATE_LEN <= buf@.len() && exists|t: Self| t.wf() && #[trigger] t.decodes(
                buf@.subrange(pos as int, pos + DMC_STATE_LEN))) ==> r is Some,
    {
        if buf.len() < DMC_STATE_LEN || pos > buf.len() - DMC_STATE_LEN {
            return None;
        }
        let ghost b = buf@.subrange(pos as int, pos + DMC_STATE_LEN);
        proof {
            reveal(DMC::decodes);
        }
        let ghost b0 = b.subrange(0, 5);
        assert(b0 =~= buf@.subrange(pos + 0, pos + 5));
        let dmc_loop = get_bool(buf, pos + 0);
        let dmc_cnt = get_u8(buf, pos + 1);
        let irq_enabled = get_bool(buf, pos + 2);
        let sample_addr = get_u16(buf, pos + 3);
        let ghost b1 = b.subrange(5, 12);
        assert(b1 =~= buf@.subrange(pos + 5, pos + 12));
        let sample_len = get_u16(buf, pos + 5);
        let shift_reg = get_u8(buf, pos + 7);
        let cur_addr = get_u16(buf, pos + 8);
        let rem_len = get_u16(buf, pos + 10);
        let ghost b2 = b.subrange(12, 18);
        assert(b2 =~= buf@.subrange(pos + 12, pos + 18));
        let level = get_u8(buf, pos + 12);
        let timer_lvl = get_u16(buf, pos + 13);
        let timer_period = get_u16(buf, pos + 15);
        let enabled = get_bool(buf, pos + 17);
        let t = DMC { dmc_loop, dmc_cnt, irq_enabled, sample_addr, sample_len, shift_reg, cur_addr, rem_len, level, timer_lvl, timer_period, enabled };
        assert(t.decodes_0(b0));
        assert(t.decodes_1(b1));
        assert(t.decodes_2(b2));
        assert(t.decodes(b));
        if !t.check_wf() {
            proof {
                assert forall|u: Self| #[trigger] u.decodes(b) implies !u.wf() by {
                    lemma_dmc_unique(t, u, b);
                }
            }
            return None;
        }
        Some(t)
    }

    /// Restores the state saved at `pos`; on failure nothing changes.
    pub fn load(&mut self, buf: &Vec<u8>, pos: usize) -> (ok: bool)
        requires
            old(self).wf(),
        ensures
            final(self).wf(),
            ok ==> pos + DMC_STATE_LEN <= buf@.len() && final(self).decodes(
                buf@.subrange(pos as int, pos + DMC_STATE_LEN)),
            !ok ==> *final(self) == *old(self),
            (pos + DMC_STATE_LEN <= buf@.len() && exists|t: Self| t.wf() && #[trigger] t.decodes(
                buf@.subrange(pos as int, pos + DMC_STATE_LEN))) ==> ok,
    {
        match Self::decode(buf, pos) {
            Some(t) => {
                *self = t;
                true
            },
            None => false,
        }
    }
}

/// Round trip: what `save` writes decodes to the state saved, and any state decoding those
/// bytes equals it in every saved field.
pub proof fn lemma_dmc_round_trip(s: DMC, t: DMC)
    requires
        s.wf(),
        t.decodes(s.encode()),
    ensures
        s.decodes(s.encode()),
        t.same_as(s),
{
    lemma_dmc_decodes_own(s);
    lemma_dmc_unique(s, t, s.encode());
}

/// Two states decoding the same bytes agree in every saved field, and one is consistent
/// exactly when the other is.
pub proof fn lemma_dmc_unique(s: DMC, t: DMC, b: Seq<u8>)
    requires
        s.decodes(b),
        t.decodes(b),
    ensures
        t.same_as(s),
        t.wf() == s.wf(),
{
    reveal(DMC::decodes);
    reveal(DMC::same_as);
    lemma_dmc_unique_0(s, t, b.subrange(0, 5));
    lemma_dmc_unique_1(s, t, b.subrange(5, 12));
    lemma_dmc_unique_2(s, t, b.subrange(12, 18));
}

proof fn lemma_dmc_unique_0(s: DMC, t: DMC, b: Seq<u8>)
    requires
        s.decodes_0(b),
        t.decodes_0(b),
    ensures
        t.dmc_loop == s.dmc_loop,
        t.dmc_cnt == s.dmc_cnt,
        t.irq_enabled == s.irq_enabled,
        t.sample_addr == s.sample_addr,
{
}

proof fn lemma_dmc_unique_1(s: DMC, t: DMC, b: Seq<u8>)
    requires
        s.decodes_1(b),
        t.decodes_1(b),
    ensures
        t.sample_len == s.sample_len,
        t.shift_reg == s.shift_reg,
        t.cur_addr == s.cur_addr,
        t.rem_len == s.rem_len,
{
}

proof fn lemma_dmc_unique_2(s: DMC, t: DMC, b: Seq<u8>)
    requires
        s.decodes_2(b),
        t.decodes_2(b),
    ensures
        t.level == s.level,
        t.timer_lvl == s.timer_lvl,
        t.timer_period == s.timer_period,
        t.enabled == s.enabled,
{
}

pub proof fn lemma_dmc_decodes_own(s: DMC)
    requires
        s.wf(),
    ensures
        s.decodes(s.encode()),
        s.encode().len() == 18,
{
    reveal(DMC::decodes);
    reveal(DMC::encode);
    lemma_dmc_own_0(s);
    lemma_dmc_own_1(s);
    lemma_dmc_own_2(s);
    let e = s.encode();
    assert(e.subrange(0, 5) =~= s.encode_0());
    assert(e.subrange(5, 12) =~= s.encode_1());
    assert(e.subrange(12, 18) =~= s.encode_2());
}

proof fn lemma_dmc_own_0(s: DMC)
    requires
        s.wf(),
    ensures
        s.encode_0().len() == 5,
        s.decodes_0(s.encode_0()),
{
    let e = s.encode_0();
    assert(e.subrange(0, 1) =~= enc_bool(s.dmc_loop));
    lemma_dec_bool(e, 0, s.dmc_loop);
    assert(e.subrange(1, 2) =~= seq![s.dmc_cnt]);
    lemma_dec_u8(e, 1, s.dmc_cnt);
    assert(e.subrange(2, 3) =~= enc_bool(s.irq_enabled));
    lemma_dec_bool(e, 2, s.irq_enabled);
    assert(e.subrange(3, 5) =~= enc_u16(s.sample_addr));
    lemma_dec_u16(e, 3, s.sample_addr);
}

proof fn lemma_dmc_own_1(s: DMC)
    requires
        s.wf(),
    ensures
        s.encode_1().len() == 7,
        s.decodes_1(s.encode_1()),
{
    let e = s.encode_1();
    assert(e.subrange(0, 2) =~= enc_u16(s.sample_len));
    lemma_dec_u16(e, 0, s.sample_len);
    assert(e.subrange(2, 3) =~= seq![s.shift_reg]);
    lemma_dec_u8(e, 2, s.shift_reg);
    assert(e.subrange(3, 5) =~= enc_u16(s.cur_addr));
    lemma_dec_u16(e, 3, s.cur_addr);
    assert(e.subrange(5, 7) =~= enc_u16(s.rem_len));
    lemma_dec_u16(e, 5, s.rem_len);
}

proof fn lemma_dmc_own_2(s: DMC)
    requires
        s.wf(),
    ensures
        s.encode_2().len() == 6,
        s.decodes_2(s.encode_2()),
{
    let e = s.encode_2();
    assert(e.subrange(0, 1) =~= seq![s.level]);
    lemma_dec_u8(e, 0, s.level);
    assert(e.subrange(1, 3) =~= enc_u16(s.timer_lvl));
    lemma_dec_u16(e, 1, s.timer_lvl);
    assert(e.subrange(3, 5) =~= enc_u16(s.timer_period));
    lemma_dec_u16(e, 3, s.timer_period);
    assert(e.subrange(5, 6) =~= enc_bool(s.enabled));
    lemma_dec_bool(e, 5, s.enabled);
}

pub const LP_STATE_LEN: usize = 2;

impl LPFilter {
    pub open spec fn encode_0(&self) -> Seq<u8> {
        enc_u16(self.prev_out as u16)
    }

    pub open spec fn decodes_0(&self, b: Seq<u8>) -> bool {
        &&& b.len() == 2
        &&& self.prev_out == dec_u16(b, 0) as i16
    }

    /// The saved form of this state, field by field.
    #[verifier::opaque]
    pub open spec fn encode(&self) -> Seq<u8> {
        self.encode_0()
    }

    /// Whether this state is the one the saved bytes `b` describe.
    #[verifier::opaque]
    pub open spec fn decodes(&self, b: Seq<u8>) -> bool {
        &&& b.len() == 2
        &&& self.decodes_0(b.subrange(0, 2))
    }

    /// Equal in every saved field.
    #[verifier::opaque]
    pub open spec fn same_as(&self, o: Self) -> bool {
        &&& self.prev_out == o.prev_out
    }

    fn save_0(&self, out: &mut Vec<u8>)
        requires
            self.wf(),
        ensures
            final(out)@ == old(out)@ + self.encode_0(),
    {
        put_u16(out, self.prev_out as u16);
        assert(final(out)@ =~= old(out)@ + self.encode_0());
    }

    pub fn save(&self, out: &mut Vec<u8>)
        requires
            self.wf(),
        ensures
            final(out)@ == old(out)@ + self.encode(),
            self.encode().len() == LP_STATE_LEN,
    {
        proof {
            reveal(LPFilter::encode);
        }
        let ghost start = out@;
        self.save_0(out);
        proof {
            lemma_lpfilter_own_0(*self);
        }
        assert(out@ =~= start + self.encode());
    }

    /// The state saved at `pos`, or `None` when the bytes run short or describe no
    /// consistent state.
    pub fn decode(buf: &Vec<u8>, pos: usize) -> (r: Option<Self>)
        ensures
            r matches Some(t) ==> t.wf() && pos + LP_STATE_LEN <= buf@.len() && t.decodes(
                buf@.subrange(pos as int, pos + LP_STATE_LEN)),
            (pos + LP_STATE_LEN <= buf@.len() && exists|t: Self| t.wf() && #[trigger] t.decodes(
                buf@.subrange(pos as int, pos + LP_STATE_LEN))) ==> r is Some,
    {
        if buf.len() < LP_STATE_LEN || pos > buf.len() - LP_STATE_LEN {
            return None;
        }
        let ghost b = buf@.subrange(pos as int, pos + LP_STATE_LEN);
        proof {
            reveal(LPFilter::decodes);
        }
        let ghost b0 = b.subrange(0, 2);
        assert(b0 =~= buf@.subrange(pos + 0, pos + 2));
        let prev_out = get_u16(buf, pos + 0) as i16;
        let t = LPFilter { prev_out };
        assert(t.decodes_0(b0));
        assert(t.decodes(b));
        if !t.check_wf() {
            proof {
                assert forall|u: Self| #[trigger] u.decodes(b) implies !u.wf() by {
                    lemma_lpfilter_unique(t, u, b);
                }
            }
            return None;
        }
        Some(t)
    }

    /// Restores the state saved at `pos`; on failure nothing changes.
    pub fn load(&mut self, buf: &Vec<u8>, pos: usize) -> (ok: bool)
        requires
            old(self).wf(),
        ensures
            final(self).wf(),
            ok ==> pos + LP_STATE_LEN <= buf@.len() && final(self).decodes(
                buf@.subrange(pos as int, pos + LP_STATE_LEN)),
            !ok ==> *final(self) == *old(self),
            (pos + LP_STATE_LEN <= buf@.len() && exists|t: Self| t.wf() && #[trigger] t.decodes(
                buf@.subrange(pos as int, pos + LP_STATE_LEN))) ==> ok,
    {
        match Self::decode(buf, pos) {
            Some(t) => {
                *self = t;
                true
            },
            None => false,
        }
    }
}

/// Round trip: what `save` writes decodes to the state saved, and any state decoding those
/// bytes equals it in every saved field.
pub proof fn lemma_lpfilter_round_trip(s: LPFilter, t: LPFilter)
    requires
        s.wf(),
        t.decodes(s.encode()),
    ensures
        s.decodes(s.encode()),
        t.same_as(s),
{
    lemma_lpfilter_decodes_own(s);
    lemma_lpfilter_unique(s, t, s.encode());
}

/// Two states decoding the same bytes agree in every saved field, and one is consistent
/// exactly when the other is.
pub proof fn lemma_lpfilter_unique(s: LPFilter, t: LPFilter, b: Seq<u8>)
    requires
        s.decodes(b),
        t.decodes(b),
    ensures
        t.same_as(s),
        t.wf() == s.wf(),
{
    reveal(LPFilter::decodes);
    reveal(LPFilter::same_as);
    lemma_lpfilter_unique_0(s, t, b.subrange(0, 2));
}

proof fn lemma_lpfilter_unique_0(s: LPFilter, t: LPFilter, b: Seq<u8>)
    requires
        s.decodes_0(b),
        t.decodes_0(b),
    ensures
        t.prev_out == s.prev_out,
{
}

pub proof fn lemma_lpfilter_decodes_own(s: LPFilter)
    requires
        s.wf(),
    ensures
        s.decodes(s.encode()),
        s.encode().len() == 2,
{
    reveal(LPFilter::decodes);
    reveal(LPFilter::encode);
    lemma_lpfilter_own_0(s);
    let e = s.encode();
    assert(e.subrange(0, 2) =~= s.encode_0());
}

proof fn lemma_lpfilter_own_0(s: LPFilter)
    requires
        s.wf(),
    ensures
        s.encode_0().len() == 2,
        s.decodes_0(s.encode_0()),
{
    let e = s.encode_0();
    assert(e.subrange(0, 2) =~= enc_u16(s.prev_out as u16));
    lemma_dec_i16(e, 0, s.prev_out);
}

pub const HP_STATE_LEN: usize = 8;

impl HPFilter {
    pub open spec fn encode_0(&self) -> Seq<u8> {
        enc_u16(self.prev_in as u16)
            + enc_u16(self.prev_out as u16)
            + enc_u32(self.hp_factor as u32)
    }

    pub open spec fn decodes_0(&self, b: Seq<u8>) -> bool {
        &&& b.len() == 8
        &&& self.prev_in == dec_u16(b, 0) as i16
        &&& self.prev_out == dec_u16(b, 2) as i16
        &&& self.hp_factor == dec_u32(b, 4) as i32
    }

    /// The saved form of this state, field by field.
    #[verifier::opaque]
    pub open spec fn encode(&self) -> Seq<u8> {
        self.encode_0()
    }

    /// Whether this state is the one the saved bytes `b` describe.
    #[verifier::opaque]
    pub open spec fn decodes(&self, b: Seq<u8>) -> bool {
        &&& b.len() == 8
        &&& self.decodes_0(b.subrange(0, 8))
    }

    /// Equal in every saved field.
    #[verifier::opaque]
    pub open spec fn same_as(&self, o: Self) -> bool {
        &&& self.prev_in == o.prev_in
        &&& self.prev_out == o.prev_out
        &&& self.hp_factor == o.hp_factor
    }

    fn save_0(&self, out: &mut Vec<u8>)
        requires
            self.wf(),
        ensures
            final(out)@ == old(out)@ + self.encode_0(),
    {
        put_u16(out, self.prev_in as u16);
        put_u16(out, self.prev_out as u16);
        put_u32(out, self.hp_factor as u32);
        assert(final(out)@ =~= old(out)@ + self.encode_0());
    }

    pub fn save(&self, out: &mut Vec<u8>)
        requires
            self.wf(),
        ensures
            final(out)@ == old(out)@ + self.encode(),
            self.encode().len() == HP_STATE_LEN,
    {
        proof {
            reveal(HPFilter::encode);
        }
        let ghost start = out@;
        self.save_0(out);
        proof {
            lemma_hpfilter_own_0(*self);
        }
        assert(out@ =~= start + self.encode());
    }

    /// The state saved at `pos`, or `None` when the bytes run short or describe no
    /// consistent state.
    pub fn decode(buf: &Vec<u8>, pos: usize) -> (r: Option<Self>)
        ensures
            r matches Some(t) ==> t.wf() && pos + HP_STATE_LEN <= buf@.len() && t.decodes(
                buf@.subrange(pos as int, pos + HP_STATE_LEN)),
            (pos + HP_STATE_LEN <= buf@.len() && exists|t: Self| t.wf() && #[trigger] t.decodes(
                buf@.subrange(pos as int, pos + HP_STATE_LEN))) ==> r is Some,
    {
        if buf.len() < HP_STATE_LEN || pos > buf.len() - HP_STATE_LEN {
            return None;
        }
        let ghost b = buf@.subrange(pos as int, pos + HP_STATE_LEN);
        proof {
            reveal(HPFilter::decodes);
        }
        let ghost b0 = b.subrange(0, 8);
        assert(b0 =~= buf@.subrange(pos + 0, pos + 8));
        let prev_in = get_u16(buf, pos + 0) as i16;
        let prev_out = get_u16(buf, pos + 2) as i16;
        let hp_factor = get_u32(buf, pos + 4) as i32;
        let t = HPFilter { prev_in, prev_out, hp_factor };
        assert(t.decodes_0(b0));
        assert(t.decodes(b));
        if !t.check_wf() {
            proof {
                assert forall|u: Self| #[trigger] u.decodes(b) implies !u.wf() by {
                    lemma_hpfilter_unique(t, u, b);
                }
            }
            return None;
        }
        Some(t)
    }

    /// Restores the state saved at `pos`; on failure nothing changes.
    pub fn load(&mut self, buf: &Vec<u8>, pos: usize) -> (ok: bool)
        requires
            old(self).wf(),
        ensures
            final(self).wf(),
            ok ==> pos + HP_STATE_LEN <= buf@.len() && final(self).decodes(
                buf@.subrange(pos as int, pos + HP_STATE_LEN)),
            !ok ==> *final(self) == *old(self),
            (pos + HP_STATE_LEN <= buf@.len() && exists|t: Self| t.wf() && #[trigger] t.decodes(
                buf@.subrange(pos as int, pos + HP_STATE_LEN))) ==> ok,
    {
        match Self::decode(buf, pos) {
            Some(t) => {
                *self = t;
                true
            },
            None => false,
        }
    }
}

/// Round trip: what `save` writes decodes to the state saved, and any state decoding those
/// bytes equals it in every saved field.
pub proof fn lemma_hpfilter_round_trip(s: HPFilter, t: HPFilter)
    requires
        s.wf(),
        t.decodes(s.encode()),
    ensures
        s.decodes(s.encode()),
        t.same_as(s),
{
    lemma_hpfilter_decodes_own(s);
    lemma_hpfilter_unique(s, t, s.encode());
}

/// Two states decoding the same bytes agree in every saved field, and one is consistent
/// exactly when the other is.
pub proof fn lemma_hpfilter_unique(s: HPFilter, t: HPFilter, b: Seq<u8>)
    requires
        s.decodes(b),
        t.decodes(b),
    ensures
        t.same_as(s),
        t.wf() == s.wf(),
{
    reveal(HPFilter::decodes);
    reveal(HPFilter::same_as);
    lemma_hpfilter_unique_0(s, t, b.subrange(0, 8));
}

proof fn lemma_hpfilter_unique_0(s: HPFilter, t: HPFilter, b: Seq<u8>)
    requires
        s.decodes_0(b),
        t.decodes_0(b),
    ensures
        t.prev_in == s.prev_in,
        t.prev_out == s.prev_out,
        t.hp_factor == s.hp_factor,
{
}

pub proof fn lemma_hpfilter_decodes_own(s: HPFilter)
    requires
        s.wf(),
    ensures
        s.decodes(s.encode()),
        s.encode().len() == 8,
{
    reveal(HPFilter::decodes);
    reveal(HPFilter::encode);
    lemma_hpfilter_own_0(s);
    let e = s.encode();
    assert(e.subrange(0, 8) =~= s.encode_0());
}

proof fn lemma_hpfilter_own_0(s: HPFilter)
    requires
        s.wf(),
    ensures
        s.encode_0().len() == 8,
        s.decodes_0(s.encode_0()),
{
    let e = s.encode_0();
    assert(e.subrange(0, 2) =~= enc_u16(s.prev_in as u16));
    lemma_dec_i16(e, 0, s.prev_in);
    assert(e.subrange(2, 4) =~= enc_u16(s.prev_out as u16));
    lemma_dec_i16(e, 2, s.prev_out);
    assert(e.subrange(4, 8) =~= enc_u32(s.hp_factor as u32));
    lemma_dec_i32(e, 4, s.hp_factor);
}

pub const APU_STATE_LEN: usize = 170;

impl APU {
    pub open spec fn encode_0(&self) -> Seq<u8> {
        seq![self.frame_lvl]
            + enc_bool(self.frame_mode)
            + enc_bool(self.frame_inh)
            + enc_bool(self.frame_int)
    }

    pub open spec fn decodes_0(&self, b: Seq<u8>) -> bool {
        &&& b.len() == 4
        &&& self.frame_lvl == b[0]
        &&& self.frame_mode == dec_bool(b, 1)
        &&& self.frame_inh == dec_bool(b, 2)
        &&& self.frame_int == dec_bool(b, 3)
    }

    pub open spec fn encode_1(&self) -> Seq<u8> {
        enc_bool(self.cycle_even)
            + self.pulse1.encode()
            + self.pulse2.encode()
            + self.triangle.encode()
    }

    pub open spec fn decodes_1(&self, b: Seq<u8>) -> bool {
        &&& b.len() == 58
        &&& self.cycle_even == dec_bool(b, 0)
        &&& self.pulse1.decodes(b.subrange(1, 24))
        &&& self.pulse2.decodes(b.subrange(24, 47))
        &&& self.triangle.decodes(b.subrange(47, 58))
    }

    pub open spec fn encode_2(&self) -> Seq<u8> {
        self.noise.encode()
            + self.dmc.encode()
            + self.lp_filter.encode()
            + self.hp_filter1.encode()
    }

    pub open spec fn decodes_2(&self, b: Seq<u8>) -> bool {
        &&& b.len() == 44
        &&& self.noise.decodes(b.subrange(0, 16))
        &&& self.dmc.decodes(b.subrange(16, 34))
        &&& self.lp_filter.decodes(b.subrange(34, 36))
        &&& self.hp_filter1.decodes(b.subrange(36, 44))
    }

    pub open spec fn encode_3(&self) -> Seq<u8> {
        self.hp_filter2.encode()
            + self.frame_sampler.encode()
            + self.audio_sampler.encode()
    }

    pub open spec fn decodes_3(&self, b: Seq<u8>) -> bool {
        &&& b.len() == 64
        &&& self.hp_filter2.decodes(b.subrange(0, 8))
        &&& self.frame_sampler.decodes(b.subrange(8, 36))
        &&& self.audio_sampler.decodes(b.subrange(36, 64))
    }

    /// The saved form of this state, field by field.
    #[verifier::opaque]
    pub open spec fn encode(&self) -> Seq<u8> {
        self.encode_0() + self.encode_1() + self.encode_2() + self.encode_3()
    }

    /// Whether this state is the one the saved bytes `b` describe.
    #[verifier::opaque]
    pub open spec fn decodes(&self, b: Seq<u8>) -> bool {
        &&& b.len() == 170
        &&& self.decodes_0(b.subrange(0, 4))
        &&& self.decodes_1(b.subrange(4, 62))
        &&& self.decodes_2(b.subrange(62, 106))
        &&& self.decodes_3(b.subrange(106, 170))
    }

    /// Equal in every saved field.
    #[verifier::opaque]
    pub open spec fn same_as(&self, o: Self) -> bool {
        &&& self.frame_lvl == o.frame_lvl
        &&& self.frame_mode == o.frame_mode
        &&& self.frame_inh == o.frame_inh
        &&& self.frame_int == o.frame_int
        &&& self.cycle_even == o.cycle_even
        &&& self.pulse1.same_as(o.pulse1)
        &&& self.pulse2.same_as(o.pulse2)
        &&& self.triangle.same_as(o.triangle)
        &&& self.noise.same_as(o.noise)
        &&& self.dmc.same_as(o.dmc)
        &&& self.lp_filter.same_as(o.lp_filter)
        &&& self.hp_filter1.same_as(o.hp_filter1)
        &&& self.hp_filter2.same_as(o.hp_filter2)
        &&& self.frame_sampler.same_as(o.frame_sampler)
        &&& self.audio_sampler.same_as(o.audio_sampler)
    }

    fn save_0(&self, out: &mut Vec<u8>)
        requires
            self.wf(),
        ensures
            final(out)@ == old(out)@ + self.encode_0(),
    {
        put_u8(out, self.frame_lvl);
        put_bool(out, self.frame_mode);
        put_bool(out, self.frame_inh);
        put_bool(out, self.frame_int);
        assert(final(out)@ =~= old(out)@ + self.encode_0());
    }

    fn save_1(&self, out: &mut Vec<u8>)
        requires
            self.wf(),
        ensures
            final(out)@ == old(out)@ + self.encode_1(),
    {
        put_bool(out, self.cycle_even);
        self.pulse1.save(out);
        self.pulse2.save(out);
        self.triangle.save(out);
        assert(final(out)@ =~= old(out)@ + self.encode_1());
    }

    fn save_2(&self, out: &mut Vec<u8>)
        requires
            self.wf(),
        ensures
            final(out)@ == old(out)@ + self.encode_2(),
    {
        self.noise.save(out);
        self.dmc.save(out);
        self.lp_filter.save(out);
        self.hp_filter1.save(out);
        assert(final(out)@ =~= old(out)@ + self.encode_2());
    }

    fn save_3(&self, out: &mut Vec<u8>)
        requires
            self.wf(),
        ensures
            final(out)@ == old(out)@ + self.encode_3(),
    {
        self.hp_filter2.save(out);
        self.frame_sampler.save(out);
        self.audio_sampler.save(out);
        assert(final(out)@ =~= old(out)@ + self.encode_3());
    }

    pub fn save(&self, out: &mut Vec<u8>)
        requires
            self.wf(),
        ensures
            final(out)@ == old(out)@ + self.encode(),
            self.encode().len() == APU_STATE_LEN,
    {
        proof {
            reveal(APU::encode);
        }
        let ghost start = out@;
        self.save_0(out);
        proof {
            lemma_apu_own_0(*self);
        }
        self.save_1(out);
        proof {
            lemma_apu_own_1(*self);
        }
        self.save_2(out);
        proof {
            lemma_apu_own_2(*self);
        }
        self.save_3(out);
        proof {
            lemma_apu_own_3(*self);
        }
        assert(out@ =~= start + self.encode());
    }

    /// The state saved at `pos`, or `None` when the bytes run short or describe no
    /// consistent state.
    pub fn decode(buf: &Vec<u8>, pos: usize) -> (r: Option<Self>)
        ensures
            r matches Some(t) ==> t.wf() && pos + APU_STATE_LEN <= buf@.len() && t.decodes(
                buf@.subrange(pos as int, pos + APU_STATE_LEN)),
            (pos + APU_STATE_LEN <= buf@.len() && exists|t: Self| t.wf() && #[trigger] t.decodes(
                buf@.subrange(pos as int, pos + APU_STATE_LEN))) ==> r is Some,
    {
        if buf.len() < APU_STATE_LEN || pos > buf.len() - APU_STATE_LEN {
            return None;
        }
        let ghost b = buf@.subrange(pos as int, pos + APU_STATE_LEN);
        proof {
            reveal(APU::decodes);
        }
        let ghost b0 = b.subrange(0, 4);
        assert(b0 =~= buf@.subrange(pos + 0, pos + 4));
        let frame_lvl = get_u8(buf, pos + 0);
        let frame_mode = get_bool(buf, pos + 1);
        let frame_inh = get_bool(buf, pos + 2);
        let frame_int = get_bool(buf, pos + 3);
        let ghost b1 = b.subrange(4, 62);
        assert(b1 =~= buf@.subrange(pos + 4, pos + 62));
        let cycle_even = get_bool(buf, pos + 4);
        let pulse1 = match Pulse::decode(buf, pos + 5) {
            Some(v) => v,
            None => {
                proof {
                    assert forall|u: Self| #[trigger] u.decodes(b) implies !u.wf() by {
                        lemma_apu_field_pulse1(u, b);
                        assert(b.subrange(5, 28) =~= buf@.subrange(pos + 5, pos + 5 + 23));
                    }
                }
                return None;
            },
        };
        assert(b1.subrange(1, 24) =~= buf@.subrange(pos + 5, pos + 5 + 23));
        let pulse2 = match Pulse::decode(buf, pos + 28) {
            Some(v) => v,
            None => {
                proof {
                    assert forall|u: Self| #[trigger] u.decodes(b) implies !u.wf() by {
                        lemma_apu_field_pulse2(u, b);
                        assert(b.subrange(28, 51) =~= buf@.subrange(pos + 28, pos + 28 + 23));
                    }
                }
                return None;
            },
        };
        assert(b1.subrange(24, 47) =~= buf@.subrange(pos + 28, pos + 28 + 23));
        let triangle = match Triangle::decode(buf, pos + 51) {
            Some(v) => v,
            None => {
                proof {
                    assert forall|u: Self| #[trigger] u.decodes(b) implies !u.wf() by {
                        lemma_apu_field_triangle(u, b);
                        assert(b.subrange(51, 62) =~= buf@.subrange(pos + 51, pos + 51 + 11));
                    }
                }
                return None;
            },
        };
        assert(b1.subrange(47, 58) =~= buf@.subrange(pos + 51, pos + 51 + 11));
        let ghost b2 = b.subrange(62, 106);
        assert(b2 =~= buf@.subrange(pos + 62, pos + 106));
        let noise = match Noise::decode(buf, pos + 62) {
            Some(v) => v,
            None => {
                proof {
                    assert forall|u: Self| #[trigger] u.decodes(b) implies !u.wf() by {
                        lemma_apu_field_noise(u, b);
                        assert(b.subrange(62, 78) =~= buf@.subrange(pos + 62, pos + 62 + 16));
                    }
                }
                return None;
            },
        };
        assert(b2.subrange(0, 16) =~= buf@.subrange(pos + 62, pos + 62 + 16));
        let dmc = match DMC::decode(buf, pos + 78) {
            Some(v) => v,
            None => {
                proof {
                    assert forall|u: Self| #[trigger] u.decodes(b) implies !u.wf() by {
                        lemma_apu_field_dmc(u, b);
                        assert(b.subrange(78, 96) =~= buf@.subrange(pos + 78, pos + 78 + 18));
                    }
                }
                return None;
            },
        };
        assert(b2.subrange(16, 34) =~= buf@.subrange(pos + 78, pos + 78 + 18));
        let lp_filter = match LPFilter::decode(buf, pos + 96) {
            Some(v) => v,
            None => {
                proof {
                    assert forall|u: Self| #[trigger] u.decodes(b) implies !u.wf() by {
                        lemma_apu_field_lp_filter(u, b);
                        assert(b.subrange(96, 98) =~= buf@.subrange(pos + 96, pos + 96 + 2));
                    }
                }
                return None;
            },
        };
        assert(b2.subrange(34, 36) =~= buf@.subrange(pos + 96, pos + 96 + 2));
        let hp_filter1 = match HPFilter::decode(buf, pos + 98) {
            Some(v) => v,
            None => {
                proof {
                    assert forall|u: Self| #[trigger] u.decodes(b) implies !u.wf() by {
                        lemma_apu_field_hp_filter1(u, b);
                        assert(b.subrange(98, 106) =~= buf@.subrange(pos + 98, pos + 98 + 8));
                    }
                }
                return None;
            },
        };
        assert(b2.subrange(36, 44) =~= buf@.subrange(pos + 98, pos + 98 + 8));
        let ghost b3 = b.subrange(106, 170);
        assert(b3 =~= buf@.subrange(pos + 106, pos + 170));
        let hp_filter2 = match HPFilter::decode(buf, pos + 106) {
            Some(v) => v,
            None => {
                proof {
                    assert forall|u: Self| #[trigger] u.decodes(b) implies !u.wf() by {
                        lemma_apu_field_hp_filter2(u, b);
                        assert(b.subrange(106, 114) =~= buf@.subrange(pos + 106, pos + 106 + 8));
                    }
                }
                return None;
            },
        };
        assert(b3.subrange(0, 8) =~= buf@.subrange(pos + 106, pos + 106 + 8));
        let frame_sampler = match Sampler::decode(buf, pos + 114) {
            Some(v) => v,
            None => {
                proof {
                    assert forall|u: Self| #[trigger] u.decodes(b) implies !u.wf() by {
                        lemma_apu_field_frame_sampler(u, b);
                        assert(b.subrange(114, 142) =~= buf@.subrange(pos + 114, pos + 114 + 28));
                    }
                }
                return None;
            },
        };
        assert(b3.subrange(8, 36) =~= buf@.subrange(pos + 114, pos + 114 + 28));
        let audio_sampler = match Sampler::decode(buf, pos + 142) {
            Some(v) => v,
            None => {
                proof {
                    assert forall|u: Self| #[trigger] u.decodes(b) implies !u.wf() by {
                        lemma_apu_field_audio_sampler(u, b);
                        assert(b.subrange(142, 170) =~= buf@.subrange(pos + 142, pos + 142 + 28));
                    }
                }
                return None;
            },
        };
        assert(b3.subrange(36, 64) =~= buf@.subrange(pos + 142, pos + 142 + 28));
        let t = APU { frame_lvl, frame_mode, frame_inh, frame_int, cycle_even, pulse1, pulse2, triangle, noise, dmc, lp_filter, hp_filter1, hp_filter2, frame_sampler, audio_sampler };
        assert(t.decodes_0(b0));
        assert(t.decodes_1(b1));
        assert(t.decodes_2(b2));
        assert(t.decodes_3(b3));
        assert(t.decodes(b));
        if !t.check_wf() {
            proof {
                assert forall|u: Self| #[trigger] u.decodes(b) implies !u.wf() by {
                    lemma_apu_unique(t, u, b);
                }
            }
            return None;
        }
        Some(t)
    }

    /// Restores the state saved at `pos`; on failure nothing changes.
    pub fn load(&mut self, buf: &Vec<u8>, pos: usize) -> (ok: bool)
        requires
            old(self).wf(),
        ensures
            final(self).wf(),
            ok ==> pos + APU_STATE_LEN <= buf@.len() && final(self).decodes(
                buf@.subrange(pos as int, pos + APU_STATE_LEN)),
            !ok ==> *final(self) == *old(self),
            (pos + APU_STATE_LEN <= buf@.len() && exists|t: Self| t.wf() && #[trigger] t.decodes(
                buf@.subrange(pos as int, pos + APU_STATE_LEN))) ==> ok,
    {
        match Self::decode(buf, pos) {
            Some(t) => {
                *self = t;
                true
            },
            None => false,
        }
    }
}

/// Round trip: what `save` writes decodes to the state saved, and any state decoding those
/// bytes equals it in every saved field.
pub proof fn lemma_apu_round_trip(s: APU, t: APU)
    requires
        s.wf(),
        t.decodes(s.encode()),
    ensures
        s.decodes(s.encode()),
        t.same_as(s),
{
    lemma_apu_decodes_own(s);
    lemma_apu_unique(s, t, s.encode());
}

/// Two states decoding the same bytes agree in every saved field, and one is consistent
/// exactly when the other is.
pub proof fn lemma_apu_unique(s: APU, t: APU, b: Seq<u8>)
    requires
        s.decodes(b),
        t.decodes(b),
    ensures
        t.same_as(s),
        t.wf() == s.wf(),
{
    reveal(APU::decodes);
    reveal(APU::same_as);
    lemma_apu_unique_0(s, t, b.subrange(0, 4));
    lemma_apu_unique_1(s, t, b.subrange(4, 62));
    lemma_apu_unique_2(s, t, b.subrange(62, 106));
    lemma_apu_unique_3(s, t, b.subrange(106, 170));
}

proof fn lemma_apu_unique_0(s: APU, t: APU, b: Seq<u8>)
    requires
        s.decodes_0(b),
        t.decodes_0(b),
    ensures
        t.frame_lvl == s.frame_lvl,
        t.frame_mode == s.frame_mode,
        t.frame_inh == s.frame_inh,
        t.frame_int == s.frame_int,
{
}

proof fn lemma_apu_unique_1(s: APU, t: APU, b: Seq<u8>)
    requires
        s.decodes_1(b),
        t.decodes_1(b),
    ensures
        t.cycle_even == s.cycle_even,
        t.pulse1.same_as(s.pulse1),
        t.pulse1.wf() == s.pulse1.wf(),
        t.pulse2.same_as(s.pulse2),
        t.pulse2.wf() == s.pulse2.wf(),
        t.triangle.same_as(s.triangle),
        t.triangle.wf() == s.triangle.wf(),
{
    lemma_pulse_unique(s.pulse1, t.pulse1, b.subrange(1, 24));
    lemma_pulse_unique(s.pulse2, t.pulse2, b.subrange(24, 47));
    lemma_triangle_unique(s.triangle, t.triangle, b.subrange(47, 58));
}

proof fn lemma_apu_unique_2(s: APU, t: APU, b: Seq<u8>)
    requires
        s.decodes_2(b),
        t.decodes_2(b),
    ensures
        t.noise.same_as(s.noise),
        t.noise.wf() == s.noise.wf(),
        t.dmc.same_as(s.dmc),
        t.dmc.wf() == s.dmc.wf(),
        t.lp_filter.same_as(s.lp_filter),
        t.lp_filter.wf() == s.lp_filter.wf(),
        t.hp_filter1.same_as(s.hp_filter1),
        t.hp_filter1.wf() == s.hp_filter1.wf(),
{
    lemma_noise_unique(s.noise, t.noise, b.subrange(0, 16));
    lemma_dmc_unique(s.dmc, t.dmc, b.subrange(16, 34));
    lemma_lpfilter_unique(s.lp_filter, t.lp_filter, b.subrange(34, 36));
    lemma_hpfilter_unique(s.hp_filter1, t.hp_filter1, b.subrange(36, 44));
}

proof fn lemma_apu_unique_3(s: APU, t: APU, b: Seq<u8>)
    requires
        s.decodes_3(b),
        t.decodes_3(b),
    ensures
        t.hp_filter2.same_as(s.hp_filter2),
        t.hp_filter2.wf() == s.hp_filter2.wf(),
        t.frame_sampler.same_as(s.frame_sampler),
        t.frame_sampler.wf() == s.frame_sampler.wf(),
        t.audio_sampler.same_as(s.audio_sampler),
        t.audio_sampler.wf() == s.audio_sampler.wf(),
{
    lemma_hpfilter_unique(s.hp_filter2, t.hp_filter2, b.subrange(0, 8));
    lemma_sampler_unique(s.frame_sampler, t.frame_sampler, b.subrange(8, 36));
    lemma_sampler_unique(s.audio_sampler, t.audio_sampler, b.subrange(36, 64));
}

proof fn lemma_apu_field_pulse1(u: APU, b: Seq<u8>)
    requires
        u.decodes(b),
    ensures
        u.pulse1.decodes(b.subrange(5, 28)),
        u.wf() ==> u.pulse1.wf(),
{
    reveal(APU::decodes);
    assert(b.subrange(4, 62).subrange(1, 24) =~= b.subrange(5, 28));
}

proof fn lemma_apu_field_pulse2(u: APU, b: Seq<u8>)
    requires
        u.decodes(b),
    ensures
        u.pulse2.decodes(b.subrange(28, 51)),
        u.wf() ==> u.pulse2.wf(),
{
    reveal(APU::decodes);
    assert(b.subrange(4, 62).subrange(24, 47) =~= b.subrange(28, 51));
}

proof fn lemma_apu_field_triangle(u: APU, b: Seq<u8>)
    requires
        u.decodes(b),
    ensures
        u.triangle.decodes(b.subrange(51, 62)),
        u.wf() ==> u.triangle.wf(),
{
    reveal(APU::decodes);
    assert(b.subrange(4, 62).subrange(47, 58) =~= b.subrange(51, 62));
}

proof fn lemma_apu_field_noise(u: APU, b: Seq<u8>)
    requires
        u.decodes(b),
    ensures
        u.noise.decodes(b.subrange(62, 78)),
        u.wf() ==> u.noise.wf(),
{
    reveal(APU::decodes);
    assert(b.subrange(62, 106).subrange(0, 16) =~= b.subrange(62, 78));
}

proof fn lemma_apu_field_dmc(u: APU, b: Seq<u8>)
    requires
        u.decodes(b),
    ensures
        u.dmc.decodes(b.subrange(78, 96)),
        u.wf() ==> u.dmc.wf(),
{
    reveal(APU::decodes);
    assert(b.subrange(62, 106).subrange(16, 34) =~= b.subrange(78, 96));
}

proof fn lemma_apu_field_lp_filter(u: APU, b: Seq<u8>)
    requires
        u.decodes(b),
    ensures
        u.lp_filter.decodes(b.subrange(96, 98)),
        u.wf() ==> u.lp_filter.wf(),
{
    reveal(APU::decodes);
    assert(b.subrange(62, 106).subrange(34, 36) =~= b.subrange(96, 98));
}

proof fn lemma_apu_field_hp_filter1(u: APU, b: Seq<u8>)
    requires
        u.decodes(b),
    ensures
        u.hp_filter1.decodes(b.subrange(98, 106)),
        u.wf() ==> u.hp_filter1.wf(),
{
    reveal(APU::decodes);
    assert(b.subrange(62, 106).subrange(36, 44) =~= b.subrange(98, 106));
}

proof fn lemma_apu_field_hp_filter2(u: APU, b: Seq<u8>)
    requires
        u.decodes(b),
    ensures
        u.hp_filter2.decodes(b.subrange(106, 114)),
        u.wf() ==> u.hp_filter2.wf(),
{
    reveal(APU::decodes);
    assert(b.subrange(106, 170).subrange(0, 8) =~= b.subrange(106, 114));
}

proof fn lemma_apu_field_frame_sampler(u: APU, b: Seq<u8>)
    requires
        u.decodes(b),
    ensures
        u.frame_sampler.decodes(b.subrange(114, 142)),
        u.wf() ==> u.frame_sampler.wf(),
{
    reveal(APU::decodes);
    assert(b.subrange(106, 170).subrange(8, 36) =~= b.subrange(114, 142));
}

proof fn lemma_apu_field_audio_sampler(u: APU, b: Seq<u8>)
    requires
        u.decodes(b),
    ensures
        u.audio_sampler.decodes(b.subrange(142, 170)),
        u.wf() ==> u.audio_sampler.wf(),
{
    reveal(APU::decodes);
    assert(b.subrange(106, 170).subrange(36, 64) =~= b.subrange(142, 170));
}

pub proof fn lemma_apu_decodes_own(s: APU)
    requires
        s.wf(),
    ensures
        s.decodes(s.encode()),
        s.encode().len() == 170,
{
    reveal(APU::decodes);
    reveal(APU::encode);
    lemma_apu_own_0(s);
    lemma_apu_own_1(s);
    lemma_apu_own_2(s);
    lemma_apu_own_3(s);
    let e = s.encode();
    assert(e.subrange(0, 4) =~= s.encode_0());
    assert(e.subrange(4, 62) =~= s.encode_1());
    assert(e.subrange(62, 106) =~= s.encode_2());
    assert(e.subrange(106, 170) =~= s.encode_3());
}

proof fn lemma_apu_own_0(s: APU)
    requires
        s.wf(),
    ensures
        s.encode_0().len() == 4,
        s.decodes_0(s.encode_0()),
{
    let e = s.encode_0();
    assert(e.subrange(0, 1) =~= seq![s.frame_lvl]);
    lemma_dec_u8(e, 0, s.frame_lvl);
    assert(e.subrange(1, 2) =~= enc_bool(s.frame_mode));
    lemma_dec_bool(e, 1, s.frame_mode);
    assert(e.subrange(2, 3) =~= enc_bool(s.frame_inh));
    lemma_dec_bool(e, 2, s.frame_inh);
    assert(e.subrange(3, 4) =~= enc_bool(s.frame_int));
    lemma_dec_bool(e, 3, s.frame_int);
}

proof fn lemma_apu_own_1(s: APU)
    requires
        s.wf(),
    ensures
        s.encode_1().len() == 58,
        s.decodes_1(s.encode_1()),
{
    lemma_pulse_decodes_own(s.pulse1);
    lemma_pulse_decodes_own(s.pulse2);
    lemma_triangle_decodes_own(s.triangle);
    let e = s.encode_1();
    assert(e.subrange(0, 1) =~= enc_bool(s.cycle_even));
    lemma_dec_bool(e, 0, s.cycle_even);
    assert(e.subrange(1, 24) =~= s.pulse1.encode());
    assert(e.subrange(24, 47) =~= s.pulse2.encode());
    assert(e.subrange(47, 58) =~= s.triangle.encode());
}

proof fn lemma_apu_own_2(s: APU)
    requires
        s.wf(),
    ensures
        s.encode_2().len() == 44,
        s.decodes_2(s.encode_2()),
{
    lemma_noise_decodes_own(s.noise);
    lemma_dmc_decodes_own(s.dmc);
    lemma_lpfilter_decodes_own(s.lp_filter);
    lemma_hpfilter_decodes_own(s.hp_filter1);
    let e = s.encode_2();
    assert(e.subrange(0, 16) =~= s.noise.encode());
    assert(e.subrange(16, 34) =~= s.dmc.encode());
    assert(e.subrange(34, 36) =~= s.lp_filter.encode());
    assert(e.subrange(36, 44) =~= s.hp_filter1.encode());
}

proof fn lemma_apu_own_3(s: APU)
    requires
        s.wf(),
    ensures
        s.encode_3().len() == 64,
        s.decodes_3(s.encode_3()),
{
    lemma_hpfilter_decodes_own(s.hp_filter2);
    lemma_sampler_decodes_own(s.frame_sampler);
    lemma_sampler_decodes_own(s.audio_sampler);
    let e = s.encode_3();
    assert(e.subrange(0, 8) =~= s.hp_filter2.encode());
    assert(e.subrange(8, 36) =~= s.frame_sampler.encode());
    assert(e.subrange(36, 64) =~= s.audio_sampler.encode());
}

impl Pulse {
    pub fn check_wf(&self) -> (r: bool)
        ensures
            r == self.wf(),
    {
        self.seq_cnt < 8 && self.env_vol < 16 && self.decay_lvl < 16 && self.env_period < 16
            && self.swp_count < 8 && self.timer_period < 0x800
    }
}

impl Triangle {
    pub fn check_wf(&self) -> (r: bool)
        ensures
            r == self.wf(),
    {
        self.seq_cnt < 32 && self.timer_period < 0x800
    }
}

impl Noise {
    pub fn check_wf(&self) -> (r: bool)
        ensures
            r == self.wf(),
    {
        self.env_vol < 16 && self.decay_lvl < 16 && self.env_period < 16
    }
}

impl DMC {
    pub fn check_wf(&self) -> (r: bool)
        ensures
            r == self.wf(),
    {
        self.level <= 127 && self.dmc_cnt <= 8 && self.cur_addr >= 0x8000 && self.sample_addr
            >= 0xc000
    }
}

impl LPFilter {
    pub fn check_wf(&self) -> (r: bool)
        ensures
            r == self.wf(),
    {
        true
    }
}

impl HPFilter {
    pub fn check_wf(&self) -> (r: bool)
        ensures
            r == self.wf(),
    {
        0 <= self.hp_factor && self.hp_factor <= AUDIO_LEVEL_MAX
    }
}

impl APU {
    pub fn check_wf(&self) -> (r: bool)
        ensures
            r == self.wf(),
    {
        self.pulse1.check_wf() && self.pulse2.check_wf() && self.triangle.check_wf()
            && self.noise.check_wf() && self.dmc.check_wf() && self.hp_filter1.check_wf()
            && self.hp_filter2.check_wf() && self.frame_sampler.check_wf()
            && self.audio_sampler.check_wf() && self.frame_lvl <= 4
    }
}

} // verus!
