//! The audio processing unit: the pulse, triangle and noise channels, their registers, and
//! the sample buffers that they fill.

use vstd::prelude::*;

use crate::mem::{Mem, wrap8, wrap16, lemma_wrap8, lemma_wrap16};
use crate::ppu::bit;
use crate::util::{Save, Xorshift, xorshift_next};
use vstd::array::spec_array_update;

verus! {

broadcast use {lemma_wrap8, lemma_wrap16};

pub const CYCLES_PER_EVEN_TICK: u64 = 7438;
pub const CYCLES_PER_ODD_TICK: u64 = 7439;

/// Actual is 1789800, but this is divisible by 240.
pub const NES_SAMPLE_RATE: u32 = 1789920;
pub const OUTPUT_SAMPLE_RATE: u32 = 44100;
pub const TICK_FREQUENCY: u32 = 240;
pub const NES_SAMPLES_PER_TICK: u32 = 7458;

pub const PULSE_WAVEFORMS: [u8; 4] = [0b01000000, 0b01100000, 0b01111000, 0b10011111];

pub const LENGTH_COUNTERS: [u8; 32] = [
    10, 254, 20, 2, 40, 4, 80, 6, 160, 8, 60, 10, 14, 12, 26, 14,
    12, 16, 24, 18, 48, 20, 96, 22, 192, 24, 72, 26, 16, 28, 32, 30,
];

pub const TRIANGLE_WAVEFORM: [u8; 32] = [
    15, 14, 13, 12, 11, 10, 9, 8, 7, 6, 5, 4, 3, 2, 1, 0,
    0, 1, 2, 3, 4, 5, 6, 7, 8, 9, 10, 11, 12, 13, 14, 15,
];

// TODO: PAL
pub const NOISE_PERIODS: [u16; 16] = [
    4, 8, 16, 32, 64, 96, 128, 160, 202, 254, 380, 508, 762, 1016, 2034, 4068,
];

//
// Channel lengths
//

/// The disable bit of a length counter: bit 5 for the pulses and the noise, bit 7 for the
/// triangle.
pub const DISABLE_BIT_5: u8 = 5;
pub const DISABLE_BIT_7: u8 = 7;

#[derive(Clone, Copy, PartialEq, Eq, Structural)]
pub struct ApuLength {
    pub disable: bool,
    pub id: u8,
    pub remaining: u8,
}

impl ApuLength {
    pub open spec fn spec_store(self, addr: u16, val: u8, bit_number: u8) -> ApuLength {
        let k = addr % 4;
        if k == 0 {
            ApuLength { disable: bit(val, bit_number as int), ..self }
        } else if k == 3 {
            // FIXME: Only set `remaining` if APUSTATUS has enabled this channel.
            ApuLength { id: val / 8, remaining: LENGTH_COUNTERS@[(val / 8) as int], ..self }
        } else {
            self
        }
    }

    pub open spec fn spec_decrement(self) -> ApuLength {
        if self.remaining > 0 && !self.disable {
            ApuLength { remaining: (self.remaining - 1) as u8, ..self }
        } else {
            self
        }
    }

    pub fn new() -> (l: ApuLength)
        ensures
            l == (ApuLength { disable: false, id: 0, remaining: 0 }),
    {
        ApuLength { disable: false, id: 0, remaining: 0 }
    }

    /// Channels that support the APU Length follow the same register protocol, *except* that
    /// the disable bit may be different.
    pub fn storeb(&mut self, addr: u16, val: u8, bit_number: u8)
        requires
            bit_number == DISABLE_BIT_5 || bit_number == DISABLE_BIT_7,
        ensures
            *final(self) == old(self).spec_store(addr, val, bit_number),
    {
        let a = addr;
        proof { crate::bits::lemma_word(a); crate::bits::lemma_byte(val); }
        match addr & 0x3 {
            0 => self.disable = ((val >> bit_number) & 1) != 0,
            3 => {
                self.id = val >> 3u8;
                self.remaining = LENGTH_COUNTERS[self.id as usize];
            },
            _ => {},
        }
    }

    pub fn decrement(&mut self)
        ensures
            *final(self) == old(self).spec_decrement(),
    {
        if self.remaining > 0 && !self.disable {
            self.remaining = self.remaining - 1;
        }
    }
}

//
// Volume envelopes
//

#[derive(Clone, Copy, PartialEq, Eq, Structural)]
pub struct ApuEnvelope {
    pub enabled: bool,
    pub volume: u8,
    pub period: u8,
    pub counter: u8,
    pub length: ApuLength,
}

impl ApuEnvelope {
    /// Register 0 of the channel: bit 4 clear enables the decaying envelope (volume 15,
    /// decay period in bits 0-3); set, bits 0-3 are a constant volume.
    pub open spec fn spec_store(self, addr: u16, val: u8) -> ApuEnvelope {
        let e = ApuEnvelope { length: self.length.spec_store(addr, val, DISABLE_BIT_5), ..self };
        if addr % 4 == 0 {
            if !bit(val, 4) {
                ApuEnvelope { enabled: true, volume: 15, period: val % 16, counter: 0, ..e }
            } else {
                ApuEnvelope { enabled: false, volume: val % 16, ..e }
            }
        } else {
            e
        }
    }

    /// At 240 Hz: every `period + 1`-th tick the volume decays by one; a looping envelope
    /// restarts at 15 and a non-looping one silences the channel when it reaches 0.
    pub open spec fn spec_tick(self) -> ApuEnvelope {
        if self.enabled {
            let counter = wrap8(self.counter + 1);
            if counter >= self.period {
                if self.volume == 0 {
                    if self.length.disable {
                        ApuEnvelope { counter: 0, volume: 15, ..self }
                    } else {
                        ApuEnvelope { counter: 0, ..self }
                    }
                } else {
                    let v = (self.volume - 1) as u8;
                    if v == 0 && !self.length.disable {
                        ApuEnvelope {
                            counter: 0,
                            volume: v,
                            length: ApuLength { remaining: 0, ..self.length },
                            ..self
                        }
                    } else {
                        ApuEnvelope { counter: 0, volume: v, ..self }
                    }
                }
            } else {
                ApuEnvelope { counter: counter, ..self }
            }
        } else {
            self
        }
    }

    pub open spec fn spec_audible(self) -> bool {
        self.volume > 0 && self.length.remaining > 0
    }

    /// The sample level of the volume: volume * 1024, in 16 bits.
    pub open spec fn spec_sample_volume(self) -> i16 {
        (self.volume * 1024) as i16
    }

    pub fn new() -> (e: ApuEnvelope)
        ensures
            e == (ApuEnvelope {
                enabled: false,
                volume: 0,
                period: 0,
                counter: 0,
                length: ApuLength { disable: false, id: 0, remaining: 0 },
            }),
    {
        ApuEnvelope { enabled: false, volume: 0, period: 0, counter: 0, length: ApuLength::new() }
    }

    /// Channels that support the APU Envelope follow the same register protocol.
    pub fn storeb(&mut self, addr: u16, val: u8)
        ensures
            *final(self) == old(self).spec_store(addr, val),
    {
        self.length.storeb(addr, val, DISABLE_BIT_5);
        let a = addr;
        proof { crate::bits::lemma_word(a); crate::bits::lemma_byte(val); }
        if (addr & 0x3) == 0 {
            self.enabled = ((val >> 4u8) & 1) == 0;
            if self.enabled {
                self.volume = 15;
                self.period = val & 0xf;
                self.counter = 0;
            } else {
                self.volume = val & 0xf;
            }
        }
    }

    /// This routine executes at 240 Hz and adjusts the volume and counter appropriately.
    pub fn tick(&mut self)
        ensures
            *final(self) == old(self).spec_tick(),
    {
        if self.enabled {
            self.counter = self.counter.wrapping_add(1);
            if self.counter >= self.period {
                self.counter = 0;
                if self.volume == 0 {
                    if self.loops() {
                        self.volume = 15;
                    }
                } else {
                    self.volume = self.volume - 1;
                    if self.volume == 0 && !self.loops() {
                        self.length.remaining = 0;
                    }
                }
            }
        }
    }

    pub fn loops(self) -> (r: bool)
        ensures
            r == self.length.disable,
    {
        self.length.disable
    }

    pub fn audible(&self) -> (r: bool)
        ensures
            r == self.spec_audible(),
    {
        self.volume > 0 && self.length.remaining > 0
    }

    pub fn sample_volume(&self) -> (r: i16)
        ensures
            r == self.spec_sample_volume(),
    {
        let v = self.volume;
        let w = (v as i16) * 4;
        assert((w << 8u16) == ((v * 1024) as i16)) by (bit_vector)
            requires
                w == v * 4,
        ;
        w << 8u16
    }
}

//
// Audio frequencies, shared by the pulses and the triangle
//

#[derive(Clone, Copy, PartialEq, Eq, Structural)]
pub struct ApuTimer {
    /// The raw timer value as written to the register.
    pub value: u16,
    /// How many clock ticks have passed since the last period.
    pub wavelen_count: u64,
}

impl ApuTimer {
    /// Registers 2 and 3 hold the low 8 and the high 3 bits of the timer.
    pub open spec fn spec_store(self, addr: u16, val: u8) -> ApuTimer {
        let k = addr % 4;
        if k == 2 {
            ApuTimer { value: ((self.value / 256) * 256 + val) as u16, ..self }
        } else if k == 3 {
            ApuTimer { value: (self.value % 256 + (val % 8) * 256) as u16, ..self }
        } else {
            self
        }
    }

    pub open spec fn spec_wavelen(self) -> u64 {
        ((self.value + 1) * 2) as u64
    }

    pub fn new() -> (t: ApuTimer)
        ensures
            t == (ApuTimer { value: 0, wavelen_count: 0 }),
    {
        ApuTimer { value: 0, wavelen_count: 0 }
    }

    pub fn storeb(&mut self, addr: u16, val: u8)
        ensures
            *final(self) == old(self).spec_store(addr, val),
    {
        let a = addr;
        let v = self.value;
        proof { crate::bits::lemma_word(a); }
        assert((v & 0xff00) | (val as u16) == (v / 256) * 256 + val && (v & 0x00ff) | (((val as u16)
            & 0x7) << 8u16) == v % 256 + (val % 8) * 256) by (bit_vector);
        match addr & 0x3 {
            2 => self.value = (self.value & 0xff00) | (val as u16),
            3 => self.value = (self.value & 0x00ff) | (((val as u16) & 0x7) << 8u16),
            _ => {},
        }
    }

    pub fn audible(&self) -> (r: bool)
        ensures
            r == (self.value > 0),
    {
        self.value > 0
    }

    pub fn wavelen(&self) -> (r: u64)
        ensures
            r == self.spec_wavelen(),
    {
        (self.value as u64 + 1) * 2
    }
}

//
// APU pulse sweep
//

#[derive(Clone, Copy, PartialEq, Eq, Structural)]
pub struct ApuPulseSweep {
    pub val: u8,
}

impl ApuPulseSweep {
    pub fn enabled(self) -> (r: bool)
        ensures
            r == (self.val >= 0x80),
    {
        let v = self.val;
        proof { crate::bits::lemma_byte(v); }
        (self.val >> 7u8) != 0
    }

    /// Bits 4-6, plus one.
    pub fn period(self) -> (r: u8)
        ensures
            r == (self.val / 16) % 8 + 1,
    {
        let v = self.val;
        proof { crate::bits::lemma_byte(v); }
        ((self.val >> 4u8) & 0x7) + 1
    }

    pub fn negate(self) -> (r: bool)
        ensures
            r == bit(self.val, 3),
    {
        let v = self.val;
        proof { crate::bits::lemma_byte(v); }
        ((self.val >> 3u8) & 0x1) != 0
    }

    pub fn shift_count(self) -> (r: u8)
        ensures
            r == self.val % 8,
    {
        let v = self.val;
        proof { crate::bits::lemma_byte(v); }
        self.val & 0x7
    }
}

//
// APUPULSE: [0x4000, 0x4008)
//

#[derive(Clone, Copy, PartialEq, Eq, Structural)]
pub struct ApuPulse {
    pub envelope: ApuEnvelope,
    pub sweep: ApuPulseSweep,
    pub timer: ApuTimer,
    pub duty: u8,
    pub sweep_cycle: u8,
    pub waveform_index: u8,
}

impl ApuPulse {
    /// A write to one of the four registers of a pulse channel.
    pub open spec fn spec_store(self, addr: u16, val: u8) -> ApuPulse {
        let p = ApuPulse {
            envelope: self.envelope.spec_store(addr, val),
            timer: self.timer.spec_store(addr, val),
            ..self
        };
        let k = addr % 4;
        if k == 0 {
            ApuPulse { duty: val / 64, ..p }
        } else if k == 1 {
            // TODO: Set reload flag.
            ApuPulse { sweep: ApuPulseSweep { val: val }, sweep_cycle: 0, ..p }
        } else {
            p
        }
    }

    /// At 120 Hz: the length counter counts down, and every `period` ticks an enabled sweep
    /// adds to (or takes from) the timer its value shifted right by the shift count.
    pub open spec fn spec_half_frame(self) -> ApuPulse {
        let length = self.envelope.length.spec_decrement();
        let p = ApuPulse { envelope: ApuEnvelope { length: length, ..self.envelope }, ..self };
        let cycle = wrap8(p.sweep_cycle + 1);
        if cycle >= (p.sweep.val / 16) % 8 + 1 {
            if p.sweep.val >= 0x80 {
                let delta = p.timer.value as int / shift_div(p.sweep.val % 8);
                let value = if !bit(p.sweep.val, 3) { wrap16(p.timer.value + delta) } else {
                    (p.timer.value - delta) as u16
                };
                ApuPulse { sweep_cycle: 0, timer: ApuTimer { value: value, ..p.timer }, ..p }
            } else {
                ApuPulse { sweep_cycle: 0, ..p }
            }
        } else {
            ApuPulse { sweep_cycle: cycle, ..p }
        }
    }
}

/// 2 to the power `n`, for shift counts below 8.
pub open spec fn shift_div(n: u8) -> int {
    if n == 0 { 1 } else if n == 1 { 2 } else if n == 2 { 4 } else if n == 3 { 8 }
    else if n == 4 { 16 } else if n == 5 { 32 } else if n == 6 { 64 } else { 128 }
}

//
// APUTRIANGLE: [0x4008, 0x400c)
//

#[derive(Clone, Copy, PartialEq, Eq, Structural)]
pub struct ApuTriangle {
    pub timer: ApuTimer,
    pub length: ApuLength,
    pub linear_counter: u8,
    pub linear_counter_reload: u8,
    pub linear_counter_halt: bool,
    pub waveform_index: u8,
}

impl ApuTriangle {
    pub open spec fn spec_store(self, addr: u16, val: u8) -> ApuTriangle {
        let t = ApuTriangle {
            timer: self.timer.spec_store(addr, val),
            length: self.length.spec_store(addr, val, DISABLE_BIT_7),
            ..self
        };
        if addr % 4 == 0 {
            ApuTriangle { linear_counter_reload: val % 128, linear_counter_halt: true, ..t }
        } else {
            t
        }
    }

    /// The linear counter at 240 Hz: reloaded while halted, else counting down to 0; the halt
    /// flag clears unless the length counter is disabled.
    pub open spec fn spec_tick(self) -> ApuTriangle {
        let counter = if self.linear_counter_halt {
            self.linear_counter_reload
        } else if self.linear_counter != 0 {
            (self.linear_counter - 1) as u8
        } else {
            self.linear_counter
        };
        ApuTriangle {
            linear_counter: counter,
            linear_counter_halt: if !self.length.disable { false } else { self.linear_counter_halt },
            ..self
        }
    }

    pub open spec fn spec_audible(self) -> bool {
        self.length.remaining > 0 && self.linear_counter > 0
    }

    pub fn new() -> (t: ApuTriangle)
        ensures
            t == (ApuTriangle {
                timer: ApuTimer { value: 0, wavelen_count: 0 },
                length: ApuLength { disable: false, id: 0, remaining: 0 },
                linear_counter: 0,
                linear_counter_reload: 0,
                linear_counter_halt: false,
                waveform_index: 0,
            }),
    {
        ApuTriangle {
            timer: ApuTimer::new(),
            length: ApuLength::new(),
            linear_counter: 0,
            linear_counter_reload: 0,
            linear_counter_halt: false,
            waveform_index: 0,
        }
    }

    pub fn storeb(&mut self, addr: u16, val: u8)
        ensures
            *final(self) == old(self).spec_store(addr, val),
    {
        self.timer.storeb(addr, val);
        self.length.storeb(addr, val, DISABLE_BIT_7);
        let a = addr;
        proof { crate::bits::lemma_word(a); crate::bits::lemma_byte(val); }
        if (addr & 3) == 0 {
            self.linear_counter_reload = val & 0x7f;
            self.linear_counter_halt = true;
        }
    }

    /// Updates the linear counter. Runs at 240 Hz.
    pub fn tick(&mut self)
        ensures
            *final(self) == old(self).spec_tick(),
    {
        if self.linear_counter_halt {
            self.linear_counter = self.linear_counter_reload;
        } else if self.linear_counter != 0 {
            self.linear_counter = self.linear_counter - 1;
        }
        if !self.length.disable {
            self.linear_counter_halt = false;
        }
    }

    pub fn audible(&self) -> (r: bool)
        ensures
            r == self.spec_audible(),
    {
        self.length.remaining > 0 && self.linear_counter > 0
    }
}

//
// APUNOISE: [0x400c, 0x4010)
//

#[derive(Clone, Copy, PartialEq, Eq, Structural)]
pub struct ApuNoise {
    pub envelope: ApuEnvelope,
    /// The number of ticks per possible waveform change.
    pub timer: u16,
    /// The number of ticks since the last timer.
    pub timer_count: u16,
    /// The xorshift RNG. FIXME: This is inaccurate.
    pub rng: Xorshift,
}

impl ApuNoise {
    pub fn new() -> (n: ApuNoise)
        ensures
            n == (ApuNoise {
                envelope: ApuEnvelope {
                    enabled: false,
                    volume: 0,
                    period: 0,
                    counter: 0,
                    length: ApuLength { disable: false, id: 0, remaining: 0 },
                },
                timer: 0,
                timer_count: 0,
                rng: Xorshift { x: 123456789, y: 362436069, z: 521288629, w: 88675123 },
            }),
    {
        ApuNoise { envelope: ApuEnvelope::new(), timer: 0, timer_count: 0, rng: Xorshift::new() }
    }
}

//
// APUSTATUS: 0x4015
//

#[derive(Clone, Copy, PartialEq, Eq, Structural)]
pub struct ApuStatus {
    pub val: u8,
}

impl ApuStatus {
    pub fn pulse_enabled(self, channel: u8) -> (r: bool)
        requires
            channel < 2,
        ensures
            r == bit(self.val, channel as int),
    {
        let v = self.val;
        proof { crate::bits::lemma_byte(v); }
        ((self.val >> channel) & 1) != 0
    }

    pub fn triangle_enabled(self) -> (r: bool)
        ensures
            r == bit(self.val, 2),
    {
        let v = self.val;
        proof { crate::bits::lemma_byte(v); }
        (self.val & 0x04) != 0
    }

    pub fn noise_enabled(self) -> (r: bool)
        ensures
            r == bit(self.val, 3),
    {
        let v = self.val;
        proof { crate::bits::lemma_byte(v); }
        (self.val & 0x08) != 0
    }
}

//
// Audio registers
//

#[derive(Clone, Copy)]
pub struct Regs {
    pub pulses: [ApuPulse; 2],
    pub triangle: ApuTriangle,
    pub noise: ApuNoise,
    /// $4015: APUSTATUS
    pub status: ApuStatus,
}

//
// Sample buffers
//

pub const SAMPLE_COUNT: usize = 178992;

/// The number of sample buffers: pulse 1, pulse 2, triangle, noise, and one left silent.
pub const CHANNEL_COUNT: usize = 5;

/// `u64` addition modulo 2^64.
pub open spec fn wrap64(x: int) -> u64 {
    if x > u64::MAX { (x - 0x1_0000_0000_0000_0000) as u64 } else { x as u64 }
}

/// One sample of a tone: the wavelength counter counts up, and when it reaches the
/// wavelength it restarts and the waveform moves to its next of `steps` steps.
pub open spec fn wave_step(wc: u64, wi: u8, wavelen: u64, steps: int) -> (u64, u8) {
    let c = wrap64(wc + 1);
    if c >= wavelen { (0, ((wi + 1) % steps) as u8) } else { (c, wi) }
}

/// `n` samples of a tone.
pub open spec fn wave_iter(wc: u64, wi: u8, wavelen: u64, steps: int, n: nat) -> (u64, u8)
    decreases n,
{
    if n == 0 {
        (wc, wi)
    } else {
        let (c, i) = wave_iter(wc, wi, wavelen, steps, (n - 1) as nat);
        wave_step(c, i, wavelen, steps)
    }
}

/// One sample of the noise: when the timer count reaches the timer period it restarts and the
/// output takes the low bit of the next random number.
pub open spec fn noise_step(tc: u16, on: u32, rng: Xorshift, timer: u16) -> (u16, u32, Xorshift) {
    let c = wrap16(tc + 1);
    if c >= timer {
        let (rng2, r) = xorshift_next(rng);
        (0, r & 1, rng2)
    } else {
        (c, on, rng)
    }
}

/// `n` samples of the noise.
pub open spec fn noise_iter(tc: u16, on: u32, rng: Xorshift, timer: u16, n: nat) -> (u16, u32, Xorshift)
    decreases n,
{
    if n == 0 {
        (tc, on, rng)
    } else {
        let (c, o, r) = noise_iter(tc, on, rng, timer, (n - 1) as nat);
        noise_step(c, o, r, timer)
    }
}

/// `buf` with `seg` written from `start` on.
pub open spec fn splice(buf: Seq<i16>, start: int, seg: Seq<i16>) -> Seq<i16> {
    Seq::new(buf.len(), |i: int| if start <= i < start + seg.len() { seg[i - start] } else { buf[i] })
}

/// The samples of one tick of a pulse channel: silence when it is not audible, else the
/// volume on the high steps of its duty-cycle waveform.
pub open spec fn pulse_segment(p: ApuPulse) -> Seq<i16> {
    let n = NES_SAMPLES_PER_TICK as nat;
    if !(p.envelope.spec_audible() && p.timer.value > 0) {
        Seq::new(n, |j: int| 0i16)
    } else {
        let waveform = PULSE_WAVEFORMS@[p.duty as int];
        Seq::new(
            n,
            |j: int| {
                let (_, wi) = wave_iter(p.timer.wavelen_count, p.waveform_index, p.timer.spec_wavelen(), 8, (j + 1) as nat);
                if (waveform >> ((7 - wi) as u8)) & 1 != 0 { p.envelope.spec_sample_volume() } else { 0i16 }
            },
        )
    }
}

/// The pulse channel after one tick of samples.
pub open spec fn pulse_after(p: ApuPulse) -> ApuPulse {
    if !(p.envelope.spec_audible() && p.timer.value > 0) {
        p
    } else {
        let (wc, wi) = wave_iter(p.timer.wavelen_count, p.waveform_index, p.timer.spec_wavelen(), 8, NES_SAMPLES_PER_TICK as nat);
        ApuPulse { waveform_index: wi, timer: ApuTimer { wavelen_count: wc, ..p.timer }, ..p }
    }
}

/// The samples of one tick of the triangle channel: its 32-step waveform at half the pulse
/// wavelength.
pub open spec fn triangle_segment(t: ApuTriangle) -> Seq<i16> {
    let n = NES_SAMPLES_PER_TICK as nat;
    if !t.spec_audible() {
        Seq::new(n, |j: int| 0i16)
    } else {
        Seq::new(
            n,
            |j: int| {
                let (_, wi) = wave_iter(t.timer.wavelen_count, t.waveform_index, (t.timer.value + 1) as u64, 32, (j + 1) as nat);
                (TRIANGLE_WAVEFORM@[wi as int] * 1024) as i16
            },
        )
    }
}

pub open spec fn triangle_after(t: ApuTriangle) -> ApuTriangle {
    if !t.spec_audible() {
        t
    } else {
        let (wc, wi) = wave_iter(t.timer.wavelen_count, t.waveform_index, (t.timer.value + 1) as u64, 32, NES_SAMPLES_PER_TICK as nat);
        ApuTriangle { waveform_index: wi, timer: ApuTimer { wavelen_count: wc, ..t.timer }, ..t }
    }
}

/// The samples of one tick of the noise channel: the volume while the random bit is set.
pub open spec fn noise_segment(n: ApuNoise) -> Seq<i16> {
    let len = NES_SAMPLES_PER_TICK as nat;
    if !n.envelope.spec_audible() {
        Seq::new(len, |j: int| 0i16)
    } else {
        Seq::new(
            len,
            |j: int| {
                let (_, on, _) = noise_iter(n.timer_count, 1, n.rng, n.timer, (j + 1) as nat);
                if on == 0 { 0i16 } else { n.envelope.spec_sample_volume() }
            },
        )
    }
}

pub open spec fn noise_after(n: ApuNoise) -> ApuNoise {
    if !n.envelope.spec_audible() {
        n
    } else {
        let (tc, _, rng) = noise_iter(n.timer_count, 1, n.rng, n.timer, NES_SAMPLES_PER_TICK as nat);
        ApuNoise { timer_count: tc, rng: rng, ..n }
    }
}

/// A pulse channel at power-on: everything zero.
pub open spec fn silent_pulse() -> ApuPulse {
    ApuPulse {
        envelope: ApuEnvelope {
            enabled: false,
            volume: 0,
            period: 0,
            counter: 0,
            length: ApuLength { disable: false, id: 0, remaining: 0 },
        },
        sweep: ApuPulseSweep { val: 0 },
        timer: ApuTimer { value: 0, wavelen_count: 0 },
        duty: 0,
        sweep_cycle: 0,
        waveform_index: 0,
    }
}

//
// General operation
//

pub struct Apu {
    pub regs: Regs,
    /// The five sample buffers, one after the other.
    pub sample_buffers: Vec<i16>,
    pub sample_buffer_offset: usize,
    pub cy: u64,
    pub ticks: u64,
}

/// The APU as the specifications see it: the sample buffers as one sequence.
pub struct ApuView {
    pub regs: Regs,
    pub samples: Seq<i16>,
    pub offset: usize,
    pub cy: u64,
    pub ticks: u64,
}

impl View for Apu {
    type V = ApuView;

    open spec fn view(&self) -> ApuView {
        ApuView {
            regs: self.regs,
            samples: self.sample_buffers@,
            offset: self.sample_buffer_offset,
            cy: self.cy,
            ticks: self.ticks,
        }
    }
}

impl ApuView {
    /// The buffers have their size, the offset stays within a buffer, and the duty and the
    /// waveform positions index their tables.
    pub open spec fn wf(self) -> bool {
        &&& self.samples.len() == CHANNEL_COUNT * SAMPLE_COUNT
        &&& self.offset <= SAMPLE_COUNT
        &&& self.regs.pulses@[0].duty < 4 && self.regs.pulses@[1].duty < 4
        &&& self.regs.pulses@[0].waveform_index < 8 && self.regs.pulses@[1].waveform_index < 8
        &&& self.regs.triangle.waveform_index < 32
    }

    /// Register writes at $4000-$400F and $4015.
    pub open spec fn spec_store(self, addr: u16, val: u8) -> ApuView {
        let r = self.regs;
        if 0x4000 <= addr <= 0x4003 {
            ApuView { regs: Regs { pulses: vstd::array::spec_array_update(r.pulses, 0, r.pulses@[0].spec_store(addr, val)), ..r }, ..self }
        } else if 0x4004 <= addr <= 0x4007 {
            ApuView { regs: Regs { pulses: vstd::array::spec_array_update(r.pulses, 1, r.pulses@[1].spec_store(addr, val)), ..r }, ..self }
        } else if 0x4008 <= addr <= 0x400b {
            ApuView { regs: Regs { triangle: r.triangle.spec_store(addr, val), ..r }, ..self }
        } else if 0x400c <= addr <= 0x400f {
            let e = r.noise.envelope.spec_store(addr, val);
            let timer = if addr % 4 == 2 { NOISE_PERIODS@[(val % 16) as int] } else { r.noise.timer };
            ApuView { regs: Regs { noise: ApuNoise { envelope: e, timer: timer, ..r.noise }, ..r }, ..self }
        } else if addr == 0x4015 {
            // A channel that APUSTATUS disables loses its length.
            let p0 = r.pulses@[0];
            let p1 = r.pulses@[1];
            let p0 = if !bit(val, 0) { ApuPulse { envelope: ApuEnvelope { length: ApuLength { remaining: 0, ..p0.envelope.length }, ..p0.envelope }, ..p0 } } else { p0 };
            let p1 = if !bit(val, 1) { ApuPulse { envelope: ApuEnvelope { length: ApuLength { remaining: 0, ..p1.envelope.length }, ..p1.envelope }, ..p1 } } else { p1 };
            let t = if !bit(val, 2) { ApuTriangle { length: ApuLength { remaining: 0, ..r.triangle.length }, ..r.triangle } } else { r.triangle };
            let n = if !bit(val, 3) { ApuNoise { envelope: ApuEnvelope { length: ApuLength { remaining: 0, ..r.noise.envelope.length }, ..r.noise.envelope }, ..r.noise } } else { r.noise };
            ApuView {
                regs: Regs {
                    pulses: vstd::array::spec_array_update(vstd::array::spec_array_update(r.pulses, 0, p0), 1, p1),
                    triangle: t,
                    noise: n,
                    status: ApuStatus { val: val },
                },
                ..self
            }
        } else {
            self
        }
    }

    /// The registers after the frame counter's work of one tick: every other tick the length
    /// counters and the sweeps (120 Hz); every tick the envelopes and the linear counter.
    pub open spec fn spec_frame_regs(self) -> Regs {
        let r = self.regs;
        let (p0, p1, t, nz) = if self.ticks % 2 == 0 {
            (
                r.pulses@[0].spec_half_frame(),
                r.pulses@[1].spec_half_frame(),
                ApuTriangle { length: r.triangle.length.spec_decrement(), ..r.triangle },
                ApuNoise { envelope: ApuEnvelope { length: r.noise.envelope.length.spec_decrement(), ..r.noise.envelope }, ..r.noise },
            )
        } else {
            (r.pulses@[0], r.pulses@[1], r.triangle, r.noise)
        };
        Regs {
            pulses: vstd::array::spec_array_update(
                vstd::array::spec_array_update(r.pulses, 0, ApuPulse { envelope: p0.envelope.spec_tick(), ..p0 }),
                1,
                ApuPulse { envelope: p1.envelope.spec_tick(), ..p1 },
            ),
            triangle: t.spec_tick(),
            noise: ApuNoise { envelope: nz.envelope.spec_tick(), ..nz },
            ..r
        }
    }

    /// One tick at 240 Hz: the frame counter's work, then a tick of samples of each channel.
    /// `None` when the buffers are full.
    pub open spec fn spec_tick(self) -> Option<ApuView> {
        let n = NES_SAMPLES_PER_TICK as int;
        if self.offset + n > SAMPLE_COUNT || self.ticks == u64::MAX {
            None
        } else {
            let r = self.spec_frame_regs();
            let p0 = r.pulses@[0];
            let p1 = r.pulses@[1];
            let off = self.offset as int;
            let samples = splice(
                splice(
                    splice(splice(self.samples, off, pulse_segment(p0)), SAMPLE_COUNT + off, pulse_segment(p1)),
                    2 * SAMPLE_COUNT + off,
                    triangle_segment(r.triangle),
                ),
                3 * SAMPLE_COUNT + off,
                noise_segment(r.noise),
            );
            Some(ApuView {
                regs: Regs {
                    pulses: vstd::array::spec_array_update(vstd::array::spec_array_update(r.pulses, 0, pulse_after(p0)), 1, pulse_after(p1)),
                    triangle: triangle_after(r.triangle),
                    noise: noise_after(r.noise),
                    ..r
                },
                samples: samples,
                offset: (self.offset + n) as usize,
                ticks: (self.ticks + 1) as u64,
                ..self
            })
        }
    }

    /// Runs the ticks (7438 and 7439 cycles, alternately) that end by `run_to`.
    pub open spec fn spec_step(self, run_to: u64) -> Option<ApuView>
        decreases run_to - self.cy,
    {
        let len: int = if self.ticks % 2 == 0 { CYCLES_PER_EVEN_TICK as int } else { CYCLES_PER_ODD_TICK as int };
        if self.cy + len > u64::MAX {
            None
        } else if self.cy + len > run_to {
            Some(self)
        } else {
            match self.spec_tick() {
                Some(a) => (ApuView { cy: (self.cy + len) as u64, ..a }).spec_step(run_to),
                None => None,
            }
        }
    }

    /// The mix of the five buffers at sample `i`, clamped to 16 bits.
    pub open spec fn mixed(self, i: int) -> i16 {
        let sum = self.samples[i] + self.samples[SAMPLE_COUNT + i] + self.samples[2 * SAMPLE_COUNT + i]
            + self.samples[3 * SAMPLE_COUNT + i] + self.samples[4 * SAMPLE_COUNT + i];
        if sum > 32767 { 32767i16 } else if sum < -32768 { -32768i16 } else { sum as i16 }
    }
}

proof fn lemma_shr_div(v: u16, s: u8)
    requires
        s < 8,
    ensures
        (v >> (s as u16)) as int == v as int / shift_div(s),
{
    assert(v >> 0u16 == v / 1 && v >> 1u16 == v / 2 && v >> 2u16 == v / 4 && v >> 3u16 == v / 8
        && v >> 4u16 == v / 16 && v >> 5u16 == v / 32 && v >> 6u16 == v / 64 && v >> 7u16 == v / 128)
        by (bit_vector);
}

/// The length counter and the sweep of a pulse, at 120 Hz.
fn half_frame_pulse(pulse: &mut ApuPulse)
    ensures
        *final(pulse) == old(pulse).spec_half_frame(),
{
    // Length counter.
    pulse.envelope.length.decrement();

    // Sweep.
    pulse.sweep_cycle = pulse.sweep_cycle.wrapping_add(1);
    if pulse.sweep_cycle >= pulse.sweep.period() {
        pulse.sweep_cycle = 0;
        if pulse.sweep.enabled() {
            let shift = pulse.sweep.shift_count();
            proof {
                lemma_shr_div(pulse.timer.value, shift);
            }
            let delta = pulse.timer.value >> (shift as u16);
            if !pulse.sweep.negate() {
                pulse.timer.value = pulse.timer.value.wrapping_add(delta);
            } else {
                pulse.timer.value = pulse.timer.value - delta;
            }
        }
    }
}

impl Apu {
    pub fn new() -> (a: Apu)
        ensures
            a@.wf(),
            a@.offset == 0,
            a@.cy == 0,
            a@.ticks == 0,
            a@.regs.status.val == 0,
            a@.regs.pulses@ == seq![silent_pulse(), silent_pulse()],
            a@.regs.triangle == (ApuTriangle {
                timer: ApuTimer { value: 0, wavelen_count: 0 },
                length: ApuLength { disable: false, id: 0, remaining: 0 },
                linear_counter: 0,
                linear_counter_reload: 0,
                linear_counter_halt: false,
                waveform_index: 0,
            }),
            a@.regs.noise.envelope == silent_pulse().envelope,
            a@.regs.noise.timer == 0,
            a@.regs.noise.timer_count == 0,
            a@.regs.noise.rng == (Xorshift { x: 123456789, y: 362436069, z: 521288629, w: 88675123 }),
            forall|i: int| 0 <= i < CHANNEL_COUNT * SAMPLE_COUNT ==> a@.samples[i] == 0,
    {
        let pulse = ApuPulse {
            envelope: ApuEnvelope::new(),
            sweep: ApuPulseSweep { val: 0 },
            timer: ApuTimer::new(),
            duty: 0,
            sweep_cycle: 0,
            waveform_index: 0,
        };
        Apu {
            regs: Regs {
                pulses: [pulse, pulse],
                triangle: ApuTriangle::new(),
                noise: ApuNoise::new(),
                status: ApuStatus { val: 0 },
            },
            sample_buffers: vec![0i16; CHANNEL_COUNT * SAMPLE_COUNT],
            sample_buffer_offset: 0,
            cy: 0,
            ticks: 0,
        }
    }

    fn update_status(&mut self, val: u8)
        ensures
            *final(self) == (Apu { regs: old(self)@.spec_store(0x4015, val).regs, ..*old(self) }),
    {
        self.regs.status = ApuStatus { val: val };
        let mut i: u8 = 0;
        while i < 2
            invariant
                i <= 2,
                self.regs.status.val == val,
                self.sample_buffers == old(self).sample_buffers,
                self.sample_buffer_offset == old(self).sample_buffer_offset,
                self.cy == old(self).cy,
                self.ticks == old(self).ticks,
                self.regs.triangle == old(self).regs.triangle,
                self.regs.noise == old(self).regs.noise,
                forall|j: int| 0 <= j < 2 ==> #[trigger] self.regs.pulses@[j] == (if j < i && !bit(val, j) {
                    ApuPulse {
                        envelope: ApuEnvelope {
                            length: ApuLength { remaining: 0, ..old(self).regs.pulses@[j].envelope.length },
                            ..old(self).regs.pulses@[j].envelope
                        },
                        ..old(self).regs.pulses@[j]
                    }
                } else {
                    old(self).regs.pulses@[j]
                }),
            decreases 2 - i,
        {
            if !self.regs.status.pulse_enabled(i) {
                let mut p = self.regs.pulses[i as usize];
                p.envelope.length.remaining = 0;
                self.regs.pulses[i as usize] = p;
            }
            i = i + 1;
        }
        if !self.regs.status.triangle_enabled() {
            self.regs.triangle.length.remaining = 0;
        }
        if !self.regs.status.noise_enabled() {
            self.regs.noise.envelope.length.remaining = 0;
        }
        assert(self.regs.pulses =~= vstd::array::spec_array_update(
            vstd::array::spec_array_update(
                old(self).regs.pulses,
                0,
                self.regs.pulses@[0],
            ),
            1,
            self.regs.pulses@[1],
        ));
    }

    // FIXME: Refactor into a method on ApuPulse itself.
    fn update_pulse(&mut self, addr: u16, val: u8, pulse_number: usize)
        requires
            pulse_number < 2,
        ensures
            *final(self) == (Apu {
                regs: Regs {
                    pulses: vstd::array::spec_array_update(
                        old(self).regs.pulses,
                        pulse_number as int,
                        old(self).regs.pulses@[pulse_number as int].spec_store(addr, val),
                    ),
                    ..old(self).regs
                },
                ..*old(self)
            }),
    {
        let mut pulse = self.regs.pulses[pulse_number];
        pulse.envelope.storeb(addr, val);  // Write to the envelope.
        pulse.timer.storeb(addr, val);  // Write to the timer.
        let a = addr;
        proof { crate::bits::lemma_word(a); crate::bits::lemma_byte(val); }
        match addr & 0x3 {
            0 => pulse.duty = val >> 6u8,
            1 => {
                // TODO: Set reload flag.
                pulse.sweep = ApuPulseSweep { val: val };
                pulse.sweep_cycle = 0;
            },
            _ => {},
        }
        self.regs.pulses[pulse_number] = pulse;
    }

    // FIXME: Refactor into a method on ApuNoise itself.
    fn update_noise(&mut self, addr: u16, val: u8)
        ensures
            *final(self) == (Apu {
                regs: Regs {
                    noise: ApuNoise {
                        envelope: old(self).regs.noise.envelope.spec_store(addr, val),
                        timer: if addr % 4 == 2 { NOISE_PERIODS@[(val % 16) as int] } else { old(self).regs.noise.timer },
                        ..old(self).regs.noise
                    },
                    ..old(self).regs
                },
                ..*old(self)
            }),
    {
        self.regs.noise.envelope.storeb(addr, val);
        let a = addr;
        proof { crate::bits::lemma_word(a); crate::bits::lemma_byte(val); }
        if (addr & 3) == 2 {
            // TODO: Mode bit.
            self.regs.noise.timer = NOISE_PERIODS[(val as usize) & 0xf];
        }
    }
}

impl Mem for Apu {
    /// APUSTATUS reads back; the other registers read as 0.
    open spec fn load_spec(&self, addr: u16) -> Option<(Self, u8)> {
        Some((*self, if addr == 0x4015 { self.regs.status.val } else { 0 }))
    }

    open spec fn store_spec(&self, addr: u16, val: u8) -> Option<Self> {
        Some(Apu { regs: self@.spec_store(addr, val).regs, ..*self })
    }

    fn loadb(&mut self, addr: u16) -> (val: u8) {
        match addr {
            0x4015 => self.regs.status.val,
            _ => 0,
        }
    }

    fn storeb(&mut self, addr: u16, val: u8) {
        if 0x4000 <= addr && addr <= 0x4003 {
            self.update_pulse(addr, val, 0);
        } else if 0x4004 <= addr && addr <= 0x4007 {
            self.update_pulse(addr, val, 1);
        } else if 0x4008 <= addr && addr <= 0x400b {
            self.regs.triangle.storeb(addr, val);
        } else if 0x400c <= addr && addr <= 0x400f {
            self.update_noise(addr, val);
        } else if addr == 0x4015 {
            self.update_status(val);
        }
        // TODO: other registers
    }
}

proof fn lemma_wave_step_bound(wc: u64, wi: u8, wavelen: u64, steps: int)
    requires
        wi < steps,
        0 < steps <= 256,
    ensures
        wave_step(wc, wi, wavelen, steps).1 < steps,
{
}

impl Apu {
    /// Silences one tick of samples of a channel buffer.
    fn zero_sample_buffer(&mut self, start: usize)
        requires
            start + NES_SAMPLES_PER_TICK <= old(self).sample_buffers@.len(),
            old(self).sample_buffers@.len() == CHANNEL_COUNT * SAMPLE_COUNT,
        ensures
            final(self)@ == (ApuView {
                samples: splice(old(self)@.samples, start as int, Seq::new(NES_SAMPLES_PER_TICK as nat, |j: int| 0i16)),
                ..old(self)@
            }),
    {
        let ghost zeros = Seq::new(NES_SAMPLES_PER_TICK as nat, |j: int| 0i16);
        assert(zeros.subrange(0, 0) =~= Seq::<i16>::empty());
        let mut j: usize = 0;
        assert(splice(old(self)@.samples, start as int, Seq::<i16>::empty()) =~= old(self)@.samples);
        while j < NES_SAMPLES_PER_TICK as usize
            invariant
                start + NES_SAMPLES_PER_TICK <= old(self).sample_buffers@.len(),
                old(self).sample_buffers@.len() == CHANNEL_COUNT * SAMPLE_COUNT,
                j <= NES_SAMPLES_PER_TICK,
                zeros == Seq::new(NES_SAMPLES_PER_TICK as nat, |j: int| 0i16),
                self@ == (ApuView {
                    samples: splice(old(self)@.samples, start as int, zeros.subrange(0, j as int)),
                    ..old(self)@
                }),
            decreases NES_SAMPLES_PER_TICK - j,
        {
            assert(zeros[j as int] == 0i16);
            self.sample_buffers.set(start + j, 0);
            assert(self.sample_buffers@ =~= splice(old(self)@.samples, start as int, zeros.subrange(0, j + 1)));
            j = j + 1;
        }
        assert(zeros.subrange(0, NES_SAMPLES_PER_TICK as int) =~= zeros);
    }

    #[verifier::rlimit(30)]
    fn play_pulse(&mut self, pulse_number: usize, channel: usize)
        requires
            pulse_number < 2,
            channel < CHANNEL_COUNT,
            old(self)@.wf(),
            old(self)@.offset + NES_SAMPLES_PER_TICK <= SAMPLE_COUNT,
        ensures
            final(self)@ == (ApuView {
                regs: Regs {
                    pulses: vstd::array::spec_array_update(
                        old(self).regs.pulses,
                        pulse_number as int,
                        pulse_after(old(self).regs.pulses@[pulse_number as int]),
                    ),
                    ..old(self).regs
                },
                samples: splice(
                    old(self)@.samples,
                    channel * SAMPLE_COUNT + old(self)@.offset,
                    pulse_segment(old(self).regs.pulses@[pulse_number as int]),
                ),
                ..old(self)@
            }),
    {
        let ghost p0 = self.regs.pulses@[pulse_number as int];
        let mut pulse = self.regs.pulses[pulse_number];
        let audible = pulse.envelope.audible() && pulse.timer.audible();
        let start = channel * SAMPLE_COUNT + self.sample_buffer_offset;
        if !audible {
            self.zero_sample_buffer(start);
            assert(self.regs.pulses =~= vstd::array::spec_array_update(old(self).regs.pulses, pulse_number as int, p0));
            return;
        }
        // Process sound.
        // TODO: Vectorize this for speed.
        let volume = pulse.envelope.sample_volume();
        let wavelen = pulse.timer.wavelen();
        let waveform = PULSE_WAVEFORMS[pulse.duty as usize];
        let mut waveform_index = pulse.waveform_index;
        let mut wavelen_count = pulse.timer.wavelen_count;
        let ghost seg = pulse_segment(p0);
        assert(seg.subrange(0, 0) =~= Seq::<i16>::empty());
        let mut j: usize = 0;
        assert(splice(old(self)@.samples, start as int, Seq::<i16>::empty()) =~= old(self)@.samples);
        while j < NES_SAMPLES_PER_TICK as usize
            invariant
                j <= NES_SAMPLES_PER_TICK,
                start == channel * SAMPLE_COUNT + old(self)@.offset,
                start + NES_SAMPLES_PER_TICK <= old(self).sample_buffers@.len(),
                old(self).sample_buffers@.len() == CHANNEL_COUNT * SAMPLE_COUNT,
                p0 == old(self).regs.pulses@[pulse_number as int],
                p0.envelope.spec_audible() && p0.timer.value > 0,
                seg == pulse_segment(p0),
                volume == p0.envelope.spec_sample_volume(),
                wavelen == p0.timer.spec_wavelen(),
                waveform == PULSE_WAVEFORMS@[p0.duty as int],
                (wavelen_count, waveform_index) == wave_iter(p0.timer.wavelen_count, p0.waveform_index, wavelen, 8, j as nat),
                waveform_index < 8,
                self@ == (ApuView {
                    samples: splice(old(self)@.samples, start as int, seg.subrange(0, j as int)),
                    ..old(self)@
                }),
            decreases NES_SAMPLES_PER_TICK - j,
        {
            proof {
                lemma_wave_step_bound(wavelen_count, waveform_index, wavelen, 8);
            }
            wavelen_count = wavelen_count.wrapping_add(1);
            if wavelen_count >= wavelen {
                wavelen_count = 0;
                waveform_index = (waveform_index + 1) % 8;
            }
            let sample = if ((waveform >> (7 - waveform_index)) & 1) != 0 { volume } else { 0 };
            assert(seg[j as int] == sample);
            self.sample_buffers.set(start + j, sample);
            assert(self.sample_buffers@ =~= splice(old(self)@.samples, start as int, seg.subrange(0, j + 1)));
            j = j + 1;
        }
        assert(seg.subrange(0, NES_SAMPLES_PER_TICK as int) =~= seg);
        pulse.waveform_index = waveform_index;
        pulse.timer.wavelen_count = wavelen_count;
        self.regs.pulses[pulse_number] = pulse;
    }

    #[verifier::rlimit(30)]
    fn play_triangle(&mut self, channel: usize)
        requires
            channel < CHANNEL_COUNT,
            old(self)@.wf(),
            old(self)@.offset + NES_SAMPLES_PER_TICK <= SAMPLE_COUNT,
        ensures
            final(self)@ == (ApuView {
                regs: Regs { triangle: triangle_after(old(self).regs.triangle), ..old(self).regs },
                samples: splice(
                    old(self)@.samples,
                    channel * SAMPLE_COUNT + old(self)@.offset,
                    triangle_segment(old(self).regs.triangle),
                ),
                ..old(self)@
            }),
    {
        let ghost t0 = self.regs.triangle;
        let start = channel * SAMPLE_COUNT + self.sample_buffer_offset;
        if !self.regs.triangle.audible() {
            self.zero_sample_buffer(start);
            return;
        }
        let wavelen = self.regs.triangle.timer.wavelen() / 2;
        let mut waveform_index = self.regs.triangle.waveform_index;
        let mut wavelen_count = self.regs.triangle.timer.wavelen_count;
        let ghost seg = triangle_segment(t0);
        assert(seg.subrange(0, 0) =~= Seq::<i16>::empty());
        let mut j: usize = 0;
        assert(splice(old(self)@.samples, start as int, Seq::<i16>::empty()) =~= old(self)@.samples);
        while j < NES_SAMPLES_PER_TICK as usize
            invariant
                j <= NES_SAMPLES_PER_TICK,
                start == channel * SAMPLE_COUNT + old(self)@.offset,
                start + NES_SAMPLES_PER_TICK <= old(self).sample_buffers@.len(),
                old(self).sample_buffers@.len() == CHANNEL_COUNT * SAMPLE_COUNT,
                t0 == old(self).regs.triangle,
                t0.spec_audible(),
                seg == triangle_segment(t0),
                wavelen == t0.timer.value + 1,
                (wavelen_count, waveform_index) == wave_iter(t0.timer.wavelen_count, t0.waveform_index, wavelen, 32, j as nat),
                waveform_index < 32,
                self@ == (ApuView {
                    samples: splice(old(self)@.samples, start as int, seg.subrange(0, j as int)),
                    ..old(self)@
                }),
            decreases NES_SAMPLES_PER_TICK - j,
        {
            proof {
                lemma_wave_step_bound(wavelen_count, waveform_index, wavelen, 32);
            }
            wavelen_count = wavelen_count.wrapping_add(1);
            if wavelen_count >= wavelen {
                wavelen_count = 0;
                waveform_index = (waveform_index + 1) % 32;
            }
            // FIXME: Factor out this calculation.
            let level = TRIANGLE_WAVEFORM[waveform_index as usize] as i16 * 4;
            assert(level << 8u16 == (level * 256) as i16) by (bit_vector)
                requires
                    0 <= level <= 60,
            ;
            let sample = level << 8u16;
            assert(seg[j as int] == sample);
            self.sample_buffers.set(start + j, sample);
            assert(self.sample_buffers@ =~= splice(old(self)@.samples, start as int, seg.subrange(0, j + 1)));
            j = j + 1;
        }
        assert(seg.subrange(0, NES_SAMPLES_PER_TICK as int) =~= seg);
        self.regs.triangle.waveform_index = waveform_index;
        self.regs.triangle.timer.wavelen_count = wavelen_count;
    }

    #[verifier::rlimit(30)]
    fn play_noise(&mut self, channel: usize)
        requires
            channel < CHANNEL_COUNT,
            old(self)@.wf(),
            old(self)@.offset + NES_SAMPLES_PER_TICK <= SAMPLE_COUNT,
        ensures
            final(self)@ == (ApuView {
                regs: Regs { noise: noise_after(old(self).regs.noise), ..old(self).regs },
                samples: splice(
                    old(self)@.samples,
                    channel * SAMPLE_COUNT + old(self)@.offset,
                    noise_segment(old(self).regs.noise),
                ),
                ..old(self)@
            }),
    {
        let ghost n0 = self.regs.noise;
        let start = channel * SAMPLE_COUNT + self.sample_buffer_offset;
        if !self.regs.noise.envelope.audible() {
            self.zero_sample_buffer(start);
            return;
        }
        let volume = self.regs.noise.envelope.sample_volume();
        let timer = self.regs.noise.timer;
        let mut timer_count = self.regs.noise.timer_count;
        let mut rng = self.regs.noise.rng;
        let mut on: u32 = 1;
        let ghost seg = noise_segment(n0);
        assert(seg.subrange(0, 0) =~= Seq::<i16>::empty());
        let mut j: usize = 0;
        assert(splice(old(self)@.samples, start as int, Seq::<i16>::empty()) =~= old(self)@.samples);
        while j < NES_SAMPLES_PER_TICK as usize
            invariant
                j <= NES_SAMPLES_PER_TICK,
                start == channel * SAMPLE_COUNT + old(self)@.offset,
                start + NES_SAMPLES_PER_TICK <= old(self).sample_buffers@.len(),
                old(self).sample_buffers@.len() == CHANNEL_COUNT * SAMPLE_COUNT,
                n0 == old(self).regs.noise,
                n0.envelope.spec_audible(),
                seg == noise_segment(n0),
                volume == n0.envelope.spec_sample_volume(),
                timer == n0.timer,
                (timer_count, on, rng) == noise_iter(n0.timer_count, 1, n0.rng, timer, j as nat),
                self@ == (ApuView {
                    samples: splice(old(self)@.samples, start as int, seg.subrange(0, j as int)),
                    ..old(self)@
                }),
            decreases NES_SAMPLES_PER_TICK - j,
        {
            timer_count = timer_count.wrapping_add(1);
            if timer_count >= timer {
                timer_count = 0;
                on = rng.next() & 1;
            }
            let sample = if on == 0 { 0 } else { volume };
            assert(seg[j as int] == sample);
            self.sample_buffers.set(start + j, sample);
            assert(self.sample_buffers@ =~= splice(old(self)@.samples, start as int, seg.subrange(0, j + 1)));
            j = j + 1;
        }
        assert(seg.subrange(0, NES_SAMPLES_PER_TICK as int) =~= seg);
        self.regs.noise.timer_count = timer_count;
        self.regs.noise.rng = rng;
    }
}

proof fn lemma_wave_iter_bound(wc: u64, wi: u8, wavelen: u64, steps: int, n: nat)
    requires
        wi < steps,
        0 < steps <= 256,
    ensures
        wave_iter(wc, wi, wavelen, steps, n).1 < steps,
    decreases n,
{
    if n > 0 {
        lemma_wave_iter_bound(wc, wi, wavelen, steps, (n - 1) as nat);
    }
}

impl Apu {
    #[verifier::rlimit(60)]
    fn tick(&mut self)
        requires
            old(self)@.wf(),
            old(self)@.spec_tick() is Some,
        ensures
            Some(final(self)@) == old(self)@.spec_tick(),
            final(self)@.wf(),
    {
        // 120 Hz operations: length counter and sweep.
        if self.ticks % 2 == 0 {
            // TODO: Remember that triangle wave has a different length disable bit.
            let mut p0 = self.regs.pulses[0];
            half_frame_pulse(&mut p0);
            self.regs.pulses[0] = p0;
            let mut p1 = self.regs.pulses[1];
            half_frame_pulse(&mut p1);
            self.regs.pulses[1] = p1;

            // Length counter for triangle and noise.
            self.regs.triangle.length.decrement();
            self.regs.noise.envelope.length.decrement();
        }

        // 240 Hz operations: envelope and linear counter.
        let mut p0 = self.regs.pulses[0];
        p0.envelope.tick();
        self.regs.pulses[0] = p0;
        let mut p1 = self.regs.pulses[1];
        p1.envelope.tick();
        self.regs.pulses[1] = p1;
        self.regs.triangle.tick();
        self.regs.noise.envelope.tick();
        assert(self.regs.pulses =~= old(self)@.spec_frame_regs().pulses);
        assert(self.regs == old(self)@.spec_frame_regs());

        proof {
            let q0 = self.regs.pulses@[0];
            let q1 = self.regs.pulses@[1];
            lemma_wave_iter_bound(q0.timer.wavelen_count, q0.waveform_index, q0.timer.spec_wavelen(), 8, NES_SAMPLES_PER_TICK as nat);
            lemma_wave_iter_bound(q1.timer.wavelen_count, q1.waveform_index, q1.timer.spec_wavelen(), 8, NES_SAMPLES_PER_TICK as nat);
            let t = self.regs.triangle;
            lemma_wave_iter_bound(t.timer.wavelen_count, t.waveform_index, (t.timer.value + 1) as u64, 32, NES_SAMPLES_PER_TICK as nat);
        }

        // Fill the sample buffers.
        self.play_pulse(0, 0);
        self.play_pulse(1, 1);
        self.play_triangle(2);
        self.play_noise(3);
        self.sample_buffer_offset = self.sample_buffer_offset + NES_SAMPLES_PER_TICK as usize;

        // TODO: 60 Hz IRQ.

        self.ticks = self.ticks + 1;
    }

    pub fn step(&mut self, run_to_cycle: u64)
        requires
            old(self)@.wf(),
            old(self)@.spec_step(run_to_cycle) is Some,
        ensures
            old(self)@.spec_step(run_to_cycle) == Some(final(self)@),
            final(self)@.wf(),
    {
        let ghost target = old(self)@.spec_step(run_to_cycle);
        loop
            invariant
                self@.wf(),
                target == old(self)@.spec_step(run_to_cycle),
                target == self@.spec_step(run_to_cycle),
                target is Some,
            ensures
                self@.wf(),
                target == Some(self@),
            decreases run_to_cycle - self.cy,
        {
            let ghost before = self@;
            let mut next_tick_cycle = self.cy;
            if self.ticks % 2 == 0 {
                next_tick_cycle = next_tick_cycle + CYCLES_PER_EVEN_TICK;
            } else {
                next_tick_cycle = next_tick_cycle + CYCLES_PER_ODD_TICK;
            }
            if next_tick_cycle > run_to_cycle {
                break;
            }
            self.tick();
            self.cy = next_tick_cycle;
        }
    }

    /// Mixes the five sample buffers into the first one once they are full, and starts
    /// filling them again; tells whether it did.  The caller then sends the first buffer to
    /// the audio output.
    pub fn play_channels(&mut self) -> (flushed: bool)
        requires
            old(self)@.wf(),
        ensures
            final(self)@.wf(),
            old(self)@.offset < SAMPLE_COUNT ==> !flushed && final(self)@ == old(self)@,
            old(self)@.offset >= SAMPLE_COUNT ==> flushed && final(self)@ == (ApuView {
                offset: 0,
                samples: Seq::new(
                    old(self)@.samples.len(),
                    |i: int| if i < SAMPLE_COUNT { old(self)@.mixed(i) } else { old(self)@.samples[i] },
                ),
                ..old(self)@
            }),
    {
        let sample_buffer_length = SAMPLE_COUNT;
        if self.sample_buffer_offset < sample_buffer_length {
            return false;
        }
        self.sample_buffer_offset = 0;

        // First, mix all sample buffers into the first one.
        //
        // FIXME: This should not be a linear mix, for accuracy.
        let ghost before = old(self)@;
        let mut i: usize = 0;
        assert(self.sample_buffers@ =~= Seq::new(
            before.samples.len(),
            |k: int| if k < 0 { before.mixed(k) } else { before.samples[k] },
        ));
        while i < sample_buffer_length
            invariant
                sample_buffer_length == SAMPLE_COUNT,
                i <= SAMPLE_COUNT,
                before == old(self)@,
                before.wf(),
                self@ == (ApuView {
                    offset: 0,
                    samples: Seq::new(
                        before.samples.len(),
                        |k: int| if k < i { before.mixed(k) } else { before.samples[k] },
                    ),
                    ..before
                }),
            decreases SAMPLE_COUNT - i,
        {
            let mut val: i32 = 0;
            let mut j: usize = 0;
            while j < CHANNEL_COUNT
                invariant
                    sample_buffer_length == SAMPLE_COUNT,
                    i < SAMPLE_COUNT,
                    j <= CHANNEL_COUNT,
                    self.sample_buffers@.len() == CHANNEL_COUNT * SAMPLE_COUNT,
                    forall|c: int| 0 <= c < CHANNEL_COUNT ==> #[trigger] self.sample_buffers@[c * SAMPLE_COUNT + i] == before.samples[c * SAMPLE_COUNT + i],
                    val == (if j > 0 { before.samples[i as int] as int } else { 0 })
                        + (if j > 1 { before.samples[SAMPLE_COUNT + i] as int } else { 0 })
                        + (if j > 2 { before.samples[2 * SAMPLE_COUNT + i] as int } else { 0 })
                        + (if j > 3 { before.samples[3 * SAMPLE_COUNT + i] as int } else { 0 })
                        + (if j > 4 { before.samples[4 * SAMPLE_COUNT + i] as int } else { 0 }),
                decreases CHANNEL_COUNT - j,
            {
                assert(self.sample_buffers@[j * SAMPLE_COUNT + i] == before.samples[j * SAMPLE_COUNT + i]);
                val = val + self.sample_buffers[j * SAMPLE_COUNT + i] as i32;
                j = j + 1;
            }
            if val > 32767 {
                val = 32767;
            } else if val < -32768 {
                val = -32768;
            }
            self.sample_buffers.set(i, val as i16);
            assert(self.sample_buffers@ =~= Seq::new(
                before.samples.len(),
                |k: int| if k < i + 1 { before.mixed(k) } else { before.samples[k] },
            ));
            i = i + 1;
        }
        true
    }
}

//
// Savestates
//

impl Save for ApuLength {
    open spec fn spec_saved(&self) -> Seq<u8> {
        self.disable.spec_saved()
            + self.id.spec_saved()
            + self.remaining.spec_saved()
    }

    open spec fn spec_size(&self) -> nat {
        3
    }

    open spec fn spec_loaded(&self, bytes: Seq<u8>) -> ApuLength {
        ApuLength {
            disable: self.disable.spec_loaded(bytes.subrange(0, 1)),
            id: self.id.spec_loaded(bytes.subrange(1, 2)),
            remaining: self.remaining.spec_loaded(bytes.subrange(2, 3)),
        }
    }

    fn save(&self, out: &mut Vec<u8>) {
        self.disable.save(out);
        self.id.save(out);
        self.remaining.save(out);
        assert(out@ =~= old(out)@ + self.spec_saved());
    }

    fn load(&mut self, input: &[u8], pos: usize) -> (next: usize) {
        let ghost bytes = input@.subrange(pos as int, pos + old(self).spec_size());
        let p0 = self.disable.load(input, pos);
        let p1 = self.id.load(input, p0);
        let p2 = self.remaining.load(input, p1);
        assert(input@.subrange(pos + 0, pos + 1) =~= bytes.subrange(0, 1));
        assert(input@.subrange(pos + 1, pos + 2) =~= bytes.subrange(1, 2));
        assert(input@.subrange(pos + 2, pos + 3) =~= bytes.subrange(2, 3));
        p2
    }
}

impl Save for ApuEnvelope {
    open spec fn spec_saved(&self) -> Seq<u8> {
        self.enabled.spec_saved()
            + self.volume.spec_saved()
            + self.period.spec_saved()
            + self.counter.spec_saved()
            + self.length.spec_saved()
    }

    open spec fn spec_size(&self) -> nat {
        7
    }

    open spec fn spec_loaded(&self, bytes: Seq<u8>) -> ApuEnvelope {
        ApuEnvelope {
            enabled: self.enabled.spec_loaded(bytes.subrange(0, 1)),
            volume: self.volume.spec_loaded(bytes.subrange(1, 2)),
            period: self.period.spec_loaded(bytes.subrange(2, 3)),
            counter: self.counter.spec_loaded(bytes.subrange(3, 4)),
            length: self.length.spec_loaded(bytes.subrange(4, 7)),
        }
    }

    fn save(&self, out: &mut Vec<u8>) {
        self.enabled.save(out);
        self.volume.save(out);
        self.period.save(out);
        self.counter.save(out);
        self.length.save(out);
        assert(out@ =~= old(out)@ + self.spec_saved());
    }

    fn load(&mut self, input: &[u8], pos: usize) -> (next: usize) {
        let ghost bytes = input@.subrange(pos as int, pos + old(self).spec_size());
        let p0 = self.enabled.load(input, pos);
        let p1 = self.volume.load(input, p0);
        let p2 = self.period.load(input, p1);
        let p3 = self.counter.load(input, p2);
        let p4 = self.length.load(input, p3);
        assert(input@.subrange(pos + 0, pos + 1) =~= bytes.subrange(0, 1));
        assert(input@.subrange(pos + 1, pos + 2) =~= bytes.subrange(1, 2));
        assert(input@.subrange(pos + 2, pos + 3) =~= bytes.subrange(2, 3));
        assert(input@.subrange(pos + 3, pos + 4) =~= bytes.subrange(3, 4));
        assert(input@.subrange(pos + 4, pos + 7) =~= bytes.subrange(4, 7));
        p4
    }
}

impl Save for ApuTimer {
    open spec fn spec_saved(&self) -> Seq<u8> {
        self.value.spec_saved()
            + self.wavelen_count.spec_saved()
    }

    open spec fn spec_size(&self) -> nat {
        10
    }

    open spec fn spec_loaded(&self, bytes: Seq<u8>) -> ApuTimer {
        ApuTimer {
            value: self.value.spec_loaded(bytes.subrange(0, 2)),
            wavelen_count: self.wavelen_count.spec_loaded(bytes.subrange(2, 10)),
        }
    }

    fn save(&self, out: &mut Vec<u8>) {
        self.value.save(out);
        self.wavelen_count.save(out);
        assert(out@ =~= old(out)@ + self.spec_saved());
    }

    fn load(&mut self, input: &[u8], pos: usize) -> (next: usize) {
        let ghost bytes = input@.subrange(pos as int, pos + old(self).spec_size());
        let p0 = self.value.load(input, pos);
        let p1 = self.wavelen_count.load(input, p0);
        assert(input@.subrange(pos + 0, pos + 2) =~= bytes.subrange(0, 2));
        assert(input@.subrange(pos + 2, pos + 10) =~= bytes.subrange(2, 10));
        p1
    }
}

impl Save for ApuPulseSweep {
    open spec fn spec_saved(&self) -> Seq<u8> {
        self.val.spec_saved()
    }

    open spec fn spec_size(&self) -> nat {
        1
    }

    open spec fn spec_loaded(&self, bytes: Seq<u8>) -> ApuPulseSweep {
        ApuPulseSweep {
            val: self.val.spec_loaded(bytes.subrange(0, 1)),
        }
    }

    fn save(&self, out: &mut Vec<u8>) {
        self.val.save(out);
        assert(out@ =~= old(out)@ + self.spec_saved());
    }

    fn load(&mut self, input: &[u8], pos: usize) -> (next: usize) {
        let ghost bytes = input@.subrange(pos as int, pos + old(self).spec_size());
        let p0 = self.val.load(input, pos);
        assert(input@.subrange(pos + 0, pos + 1) =~= bytes.subrange(0, 1));
        p0
    }
}

impl Save for ApuPulse {
    open spec fn spec_saved(&self) -> Seq<u8> {
        self.envelope.spec_saved()
            + self.sweep.spec_saved()
            + self.timer.spec_saved()
            + self.duty.spec_saved()
            + self.sweep_cycle.spec_saved()
            + self.waveform_index.spec_saved()
    }

    open spec fn spec_size(&self) -> nat {
        21
    }

    open spec fn spec_loaded(&self, bytes: Seq<u8>) -> ApuPulse {
        ApuPulse {
            envelope: self.envelope.spec_loaded(bytes.subrange(0, 7)),
            sweep: self.sweep.spec_loaded(bytes.subrange(7, 8)),
            timer: self.timer.spec_loaded(bytes.subrange(8, 18)),
            duty: self.duty.spec_loaded(bytes.subrange(18, 19)),
            sweep_cycle: self.sweep_cycle.spec_loaded(bytes.subrange(19, 20)),
            waveform_index: self.waveform_index.spec_loaded(bytes.subrange(20, 21)),
        }
    }

    fn save(&self, out: &mut Vec<u8>) {
        self.envelope.save(out);
        self.sweep.save(out);
        self.timer.save(out);
        self.duty.save(out);
        self.sweep_cycle.save(out);
        self.waveform_index.save(out);
        assert(out@ =~= old(out)@ + self.spec_saved());
    }

    fn load(&mut self, input: &[u8], pos: usize) -> (next: usize) {
        let ghost bytes = input@.subrange(pos as int, pos + old(self).spec_size());
        let p0 = self.envelope.load(input, pos);
        let p1 = self.sweep.load(input, p0);
        let p2 = self.timer.load(input, p1);
        let p3 = self.duty.load(input, p2);
        let p4 = self.sweep_cycle.load(input, p3);
        let p5 = self.waveform_index.load(input, p4);
        assert(input@.subrange(pos + 0, pos + 7) =~= bytes.subrange(0, 7));
        assert(input@.subrange(pos + 7, pos + 8) =~= bytes.subrange(7, 8));
        assert(input@.subrange(pos + 8, pos + 18) =~= bytes.subrange(8, 18));
        assert(input@.subrange(pos + 18, pos + 19) =~= bytes.subrange(18, 19));
        assert(input@.subrange(pos + 19, pos + 20) =~= bytes.subrange(19, 20));
        assert(input@.subrange(pos + 20, pos + 21) =~= bytes.subrange(20, 21));
        p5
    }
}

/// The timer, the length counter and the linear counter.
impl Save for ApuTriangle {
    open spec fn spec_saved(&self) -> Seq<u8> {
        self.timer.spec_saved()
            + self.length.spec_saved()
            + self.linear_counter.spec_saved()
    }

    open spec fn spec_size(&self) -> nat {
        14
    }

    open spec fn spec_loaded(&self, bytes: Seq<u8>) -> ApuTriangle {
        ApuTriangle {
            timer: self.timer.spec_loaded(bytes.subrange(0, 10)),
            length: self.length.spec_loaded(bytes.subrange(10, 13)),
            linear_counter: self.linear_counter.spec_loaded(bytes.subrange(13, 14)),
            ..*self
        }
    }

    fn save(&self, out: &mut Vec<u8>) {
        self.timer.save(out);
        self.length.save(out);
        self.linear_counter.save(out);
        assert(out@ =~= old(out)@ + self.spec_saved());
    }

    fn load(&mut self, input: &[u8], pos: usize) -> (next: usize) {
        let ghost bytes = input@.subrange(pos as int, pos + old(self).spec_size());
        let p0 = self.timer.load(input, pos);
        let p1 = self.length.load(input, p0);
        let p2 = self.linear_counter.load(input, p1);
        assert(input@.subrange(pos + 0, pos + 10) =~= bytes.subrange(0, 10));
        assert(input@.subrange(pos + 10, pos + 13) =~= bytes.subrange(10, 13));
        assert(input@.subrange(pos + 13, pos + 14) =~= bytes.subrange(13, 14));
        p2
    }
}

/// The envelope and the timer; the generator is not saved.
impl Save for ApuNoise {
    open spec fn spec_saved(&self) -> Seq<u8> {
        self.envelope.spec_saved()
            + self.timer.spec_saved()
            + self.timer_count.spec_saved()
    }

    open spec fn spec_size(&self) -> nat {
        11
    }

    open spec fn spec_loaded(&self, bytes: Seq<u8>) -> ApuNoise {
        ApuNoise {
            envelope: self.envelope.spec_loaded(bytes.subrange(0, 7)),
            timer: self.timer.spec_loaded(bytes.subrange(7, 9)),
            timer_count: self.timer_count.spec_loaded(bytes.subrange(9, 11)),
            ..*self
        }
    }

    fn save(&self, out: &mut Vec<u8>) {
        self.envelope.save(out);
        self.timer.save(out);
        self.timer_count.save(out);
        assert(out@ =~= old(out)@ + self.spec_saved());
    }

    fn load(&mut self, input: &[u8], pos: usize) -> (next: usize) {
        let ghost bytes = input@.subrange(pos as int, pos + old(self).spec_size());
        let p0 = self.envelope.load(input, pos);
        let p1 = self.timer.load(input, p0);
        let p2 = self.timer_count.load(input, p1);
        assert(input@.subrange(pos + 0, pos + 7) =~= bytes.subrange(0, 7));
        assert(input@.subrange(pos + 7, pos + 9) =~= bytes.subrange(7, 9));
        assert(input@.subrange(pos + 9, pos + 11) =~= bytes.subrange(9, 11));
        p2
    }
}

impl Save for ApuStatus {
    open spec fn spec_saved(&self) -> Seq<u8> {
        self.val.spec_saved()
    }

    open spec fn spec_size(&self) -> nat {
        1
    }

    open spec fn spec_loaded(&self, bytes: Seq<u8>) -> ApuStatus {
        ApuStatus {
            val: self.val.spec_loaded(bytes.subrange(0, 1)),
        }
    }

    fn save(&self, out: &mut Vec<u8>) {
        self.val.save(out);
        assert(out@ =~= old(out)@ + self.spec_saved());
    }

    fn load(&mut self, input: &[u8], pos: usize) -> (next: usize) {
        let ghost bytes = input@.subrange(pos as int, pos + old(self).spec_size());
        let p0 = self.val.load(input, pos);
        assert(input@.subrange(pos + 0, pos + 1) =~= bytes.subrange(0, 1));
        p0
    }
}

/// Both pulse channels, the triangle, the noise channel, then APUSTATUS.
impl Save for Regs {
    open spec fn spec_saved(&self) -> Seq<u8> {
        self.pulses[0].spec_saved()
            + self.pulses[1].spec_saved()
            + self.triangle.spec_saved()
            + self.noise.spec_saved()
            + self.status.spec_saved()
    }

    open spec fn spec_size(&self) -> nat {
        68
    }

    open spec fn spec_loaded(&self, bytes: Seq<u8>) -> Regs {
        Regs {
            pulses: spec_array_update(
                spec_array_update(self.pulses, 0, self.pulses[0].spec_loaded(bytes.subrange(0, 21))),
                1,
                self.pulses[1].spec_loaded(bytes.subrange(21, 42)),
            ),
            triangle: self.triangle.spec_loaded(bytes.subrange(42, 56)),
            noise: self.noise.spec_loaded(bytes.subrange(56, 67)),
            status: self.status.spec_loaded(bytes.subrange(67, 68)),
        }
    }

    fn save(&self, out: &mut Vec<u8>) {
        self.pulses[0].save(out);
        self.pulses[1].save(out);
        self.triangle.save(out);
        self.noise.save(out);
        self.status.save(out);
        assert(out@ =~= old(out)@ + self.spec_saved());
    }

    fn load(&mut self, input: &[u8], pos: usize) -> (next: usize) {
        let ghost bytes = input@.subrange(pos as int, pos + 68);
        let mut pulse0 = self.pulses[0];
        let p0 = pulse0.load(input, pos);
        let mut pulse1 = self.pulses[1];
        let p1 = pulse1.load(input, p0);
        self.pulses = [pulse0, pulse1];
        let p2 = self.triangle.load(input, p1);
        let p3 = self.noise.load(input, p2);
        let p4 = self.status.load(input, p3);
        assert(input@.subrange(pos as int, pos + 21) =~= bytes.subrange(0, 21));
        assert(input@.subrange(pos + 21, pos + 42) =~= bytes.subrange(21, 42));
        assert(input@.subrange(pos + 42, pos + 56) =~= bytes.subrange(42, 56));
        assert(input@.subrange(pos + 56, pos + 67) =~= bytes.subrange(56, 67));
        assert(input@.subrange(pos + 67, pos + 68) =~= bytes.subrange(67, 68));
        assert(self.pulses =~= old(self).spec_loaded(bytes).pulses);
        p4
    }
}


/// The registers and the two counters; the sample buffers are not saved.
impl Save for Apu {
    open spec fn spec_saved(&self) -> Seq<u8> {
        self.regs.spec_saved()
            + self.cy.spec_saved()
            + self.ticks.spec_saved()
    }

    open spec fn spec_size(&self) -> nat {
        84
    }

    open spec fn spec_loaded(&self, bytes: Seq<u8>) -> Apu {
        Apu {
            regs: self.regs.spec_loaded(bytes.subrange(0, 68)),
            cy: self.cy.spec_loaded(bytes.subrange(68, 76)),
            ticks: self.ticks.spec_loaded(bytes.subrange(76, 84)),
            ..*self
        }
    }

    fn save(&self, out: &mut Vec<u8>) {
        self.regs.save(out);
        self.cy.save(out);
        self.ticks.save(out);
        assert(out@ =~= old(out)@ + self.spec_saved());
    }

    fn load(&mut self, input: &[u8], pos: usize) -> (next: usize) {
        let ghost bytes = input@.subrange(pos as int, pos + old(self).spec_size());
        let p0 = self.regs.load(input, pos);
        let p1 = self.cy.load(input, p0);
        let p2 = self.ticks.load(input, p1);
        assert(input@.subrange(pos + 0, pos + 68) =~= bytes.subrange(0, 68));
        assert(input@.subrange(pos + 68, pos + 76) =~= bytes.subrange(68, 76));
        assert(input@.subrange(pos + 76, pos + 84) =~= bytes.subrange(76, 84));
        p2
    }
}


//
// Laws of the savestate encoding
//

proof fn lemma_save_load_apulength(v: ApuLength, any: ApuLength)
    ensures
        v.spec_saved().len() == v.spec_size(),
        any.spec_loaded(v.spec_saved()) == v,
{
    let b = v.spec_saved();
    crate::util::lemma_save_load_bool(v.disable, any.disable);
    crate::util::lemma_save_load_u8(v.id, any.id);
    crate::util::lemma_save_load_u8(v.remaining, any.remaining);
    assert(b.subrange(0, 1) =~= v.disable.spec_saved());
    assert(b.subrange(1, 2) =~= v.id.spec_saved());
    assert(b.subrange(2, 3) =~= v.remaining.spec_saved());
}

proof fn lemma_save_load_apuenvelope(v: ApuEnvelope, any: ApuEnvelope)
    ensures
        v.spec_saved().len() == v.spec_size(),
        any.spec_loaded(v.spec_saved()) == v,
{
    let b = v.spec_saved();
    crate::util::lemma_save_load_bool(v.enabled, any.enabled);
    crate::util::lemma_save_load_u8(v.volume, any.volume);
    crate::util::lemma_save_load_u8(v.period, any.period);
    crate::util::lemma_save_load_u8(v.counter, any.counter);
    lemma_save_load_apulength(v.length, any.length);
    assert(b.subrange(0, 1) =~= v.enabled.spec_saved());
    assert(b.subrange(1, 2) =~= v.volume.spec_saved());
    assert(b.subrange(2, 3) =~= v.period.spec_saved());
    assert(b.subrange(3, 4) =~= v.counter.spec_saved());
    assert(b.subrange(4, 7) =~= v.length.spec_saved());
}

proof fn lemma_save_load_aputimer(v: ApuTimer, any: ApuTimer)
    ensures
        v.spec_saved().len() == v.spec_size(),
        any.spec_loaded(v.spec_saved()) == v,
{
    let b = v.spec_saved();
    crate::util::lemma_save_load_u16(v.value, any.value);
    crate::util::lemma_save_load_u64(v.wavelen_count, any.wavelen_count);
    assert(b.subrange(0, 2) =~= v.value.spec_saved());
    assert(b.subrange(2, 10) =~= v.wavelen_count.spec_saved());
}

proof fn lemma_save_load_apupulsesweep(v: ApuPulseSweep, any: ApuPulseSweep)
    ensures
        v.spec_saved().len() == v.spec_size(),
        any.spec_loaded(v.spec_saved()) == v,
{
    let b = v.spec_saved();
    crate::util::lemma_save_load_u8(v.val, any.val);
    assert(b.subrange(0, 1) =~= v.val.spec_saved());
}

proof fn lemma_save_load_apupulse(v: ApuPulse, any: ApuPulse)
    ensures
        v.spec_saved().len() == v.spec_size(),
        any.spec_loaded(v.spec_saved()) == v,
{
    let b = v.spec_saved();
    lemma_save_load_apuenvelope(v.envelope, any.envelope);
    lemma_save_load_apupulsesweep(v.sweep, any.sweep);
    lemma_save_load_aputimer(v.timer, any.timer);
    crate::util::lemma_save_load_u8(v.duty, any.duty);
    crate::util::lemma_save_load_u8(v.sweep_cycle, any.sweep_cycle);
    crate::util::lemma_save_load_u8(v.waveform_index, any.waveform_index);
    assert(b.subrange(0, 7) =~= v.envelope.spec_saved());
    assert(b.subrange(7, 8) =~= v.sweep.spec_saved());
    assert(b.subrange(8, 18) =~= v.timer.spec_saved());
    assert(b.subrange(18, 19) =~= v.duty.spec_saved());
    assert(b.subrange(19, 20) =~= v.sweep_cycle.spec_saved());
    assert(b.subrange(20, 21) =~= v.waveform_index.spec_saved());
}

proof fn lemma_save_load_aputriangle(v: ApuTriangle, any: ApuTriangle)
    ensures
        v.spec_saved().len() == v.spec_size(),
        any.spec_loaded(v.spec_saved()) == (ApuTriangle { timer: v.timer, length: v.length, linear_counter: v.linear_counter, ..any }),
{
    let b = v.spec_saved();
    lemma_save_load_aputimer(v.timer, any.timer);
    lemma_save_load_apulength(v.length, any.length);
    crate::util::lemma_save_load_u8(v.linear_counter, any.linear_counter);
    assert(b.subrange(0, 10) =~= v.timer.spec_saved());
    assert(b.subrange(10, 13) =~= v.length.spec_saved());
    assert(b.subrange(13, 14) =~= v.linear_counter.spec_saved());
}

proof fn lemma_save_load_apunoise(v: ApuNoise, any: ApuNoise)
    ensures
        v.spec_saved().len() == v.spec_size(),
        any.spec_loaded(v.spec_saved()) == (ApuNoise { envelope: v.envelope, timer: v.timer, timer_count: v.timer_count, ..any }),
{
    let b = v.spec_saved();
    lemma_save_load_apuenvelope(v.envelope, any.envelope);
    crate::util::lemma_save_load_u16(v.timer, any.timer);
    crate::util::lemma_save_load_u16(v.timer_count, any.timer_count);
    assert(b.subrange(0, 7) =~= v.envelope.spec_saved());
    assert(b.subrange(7, 9) =~= v.timer.spec_saved());
    assert(b.subrange(9, 11) =~= v.timer_count.spec_saved());
}

proof fn lemma_save_load_apustatus(v: ApuStatus, any: ApuStatus)
    ensures
        v.spec_saved().len() == v.spec_size(),
        any.spec_loaded(v.spec_saved()) == v,
{
    let b = v.spec_saved();
    crate::util::lemma_save_load_u8(v.val, any.val);
    assert(b.subrange(0, 1) =~= v.val.spec_saved());
}

/// The APU registers after a savestate of `saved` is loaded over `into`: everything comes from
/// `saved` but the triangle's linear counter reload value, halt flag and waveform position and
/// the noise channel's random generator, which the savestate does not hold.
pub open spec fn restored_regs(saved: Regs, into: Regs) -> Regs {
    Regs {
        pulses: saved.pulses,
        triangle: ApuTriangle {
            timer: saved.triangle.timer,
            length: saved.triangle.length,
            linear_counter: saved.triangle.linear_counter,
            ..into.triangle
        },
        noise: ApuNoise {
            envelope: saved.noise.envelope,
            timer: saved.noise.timer,
            timer_count: saved.noise.timer_count,
            ..into.noise
        },
        status: saved.status,
    }
}

proof fn lemma_save_load_regs(v: Regs, any: Regs)
    ensures
        v.spec_saved().len() == v.spec_size(),
        any.spec_loaded(v.spec_saved()) == restored_regs(v, any),
{
    let b = v.spec_saved();
    lemma_save_load_apupulse(v.pulses[0], any.pulses[0]);
    lemma_save_load_apupulse(v.pulses[1], any.pulses[1]);
    lemma_save_load_aputriangle(v.triangle, any.triangle);
    lemma_save_load_apunoise(v.noise, any.noise);
    lemma_save_load_apustatus(v.status, any.status);
    assert(b.subrange(0, 21) =~= v.pulses[0].spec_saved());
    assert(b.subrange(21, 42) =~= v.pulses[1].spec_saved());
    assert(b.subrange(42, 56) =~= v.triangle.spec_saved());
    assert(b.subrange(56, 67) =~= v.noise.spec_saved());
    assert(b.subrange(67, 68) =~= v.status.spec_saved());
    let l = any.spec_loaded(b);
    assert(l.pulses =~= v.pulses);
}

/// The APU reads back from a savestate: its registers as `restored_regs` gives them and its
/// two counters; the sample buffers are those of the APU loaded into.
pub proof fn lemma_save_load_apu(v: Apu, any: Apu)
    ensures
        v.spec_saved().len() == v.spec_size(),
        any.spec_loaded(v.spec_saved()) == (Apu {
            regs: restored_regs(v.regs, any.regs),
            cy: v.cy,
            ticks: v.ticks,
            ..any
        }),
{
    let b = v.spec_saved();
    lemma_save_load_regs(v.regs, any.regs);
    crate::util::lemma_save_load_u64(v.cy, any.cy);
    crate::util::lemma_save_load_u64(v.ticks, any.ticks);
    assert(b.subrange(0, 68) =~= v.regs.spec_saved());
    assert(b.subrange(68, 76) =~= v.cy.spec_saved());
    assert(b.subrange(76, 84) =~= v.ticks.spec_saved());
}


//
// Laws of the sweep unit
//

/// When a pulse channel's sweep fires at a half frame (its divider has reached the period in
/// bits 4-6 of the sweep register) and is enabled (bit 7), the timer period moves by itself
/// shifted right by the shift count (bits 0-2): up, lowering the pitch, when the negate bit
/// (bit 3) is clear (wrapping at 2^16), down when it is set.  A disabled sweep leaves it.
pub proof fn lemma_sweep(p: ApuPulse)
    ensures
        ({
            let fires = (p.sweep_cycle + 1) % 256 >= (p.sweep.val / 16) % 8 + 1;
            let delta = p.timer.value >> ((p.sweep.val % 8) as u16);
            let v = p.spec_half_frame().timer.value;
            &&& fires && p.sweep.val >= 0x80 && (p.sweep.val / 8) % 2 == 0 ==> v == (p.timer.value + delta) % 0x10000
            &&& fires && p.sweep.val >= 0x80 && (p.sweep.val / 8) % 2 == 1 ==> v == p.timer.value - delta
            &&& !(fires && p.sweep.val >= 0x80) ==> v == p.timer.value
            &&& delta <= p.timer.value
        }),
{
    lemma_shr_div(p.timer.value, p.sweep.val % 8);
    let s = p.sweep.val % 8;
    assert(p.timer.value as int / shift_div(s) <= p.timer.value) by (nonlinear_arith)
        requires shift_div(s) >= 1;
}

} // verus!
