//! Musical time: tempo, pulses per quarter note and time signature, and the
//! tick arithmetic derived from them.

use vstd::prelude::*;

use crate::ast::Tempo;

verus! {

/// A time signature such as 4/4, 3/4 or 6/8.
#[derive(Clone, Copy, Debug, PartialEq, Eq, Structural)]
pub struct TimeSignature {
    /// Beats per bar.
    pub numerator: u8,
    /// Note value of one beat.
    pub denominator: u8,
}

impl Default for TimeSignature {
    fn default() -> (r: TimeSignature)
        ensures
            r.numerator == 4,
            r.denominator == 4,
    {
        TimeSignature { numerator: 4, denominator: 4 }
    }
}

/// Microseconds in one minute.
pub const MICROS_PER_MINUTE: u64 = 60_000_000;

/// The default resolution in pulses per quarter note.
pub const DEFAULT_PPQ: u16 = 480;

/// Duration of one tick in microseconds: `60_000_000 / (bpm * ppq)`,
/// truncated; a non-positive tempo gives the limits a floating-point
/// division gives (`u64::MAX` for a zero product, 0 for a negative one).
pub open spec fn tick_duration_spec(bpm: int, ppq: int) -> int {
    if bpm * ppq > 0 {
        MICROS_PER_MINUTE as int / (bpm * ppq)
    } else if bpm < 0 && ppq > 0 {
        0
    } else if bpm < 0 && ppq == 0 {
        0
    } else {
        u64::MAX as int
    }
}

/// Ticks in one bar: `ppq * numerator * 4 / denominator`.
pub open spec fn ticks_per_bar_spec(ppq: int, ts: TimeSignature) -> int {
    (ppq * ts.numerator * 4) / (ts.denominator as int)
}

/// Ticks in one beat of the time signature: `ppq * 4 / denominator`.
pub open spec fn ticks_per_beat_spec(ppq: int, ts: TimeSignature) -> int {
    (ppq * 4) / (ts.denominator as int)
}

/// Ticks of a note value (4 = quarter, 8 = eighth, ...), dotted adding half.
pub open spec fn duration_ticks_spec(ppq: int, duration: int, dotted: bool) -> int {
    let base = (ppq * 4) / duration;
    if dotted { (base * 3) / 2 } else { base }
}

/// An integer saturated to the range of `i64`.
pub open spec fn clamp_i64(v: int) -> int {
    if v > i64::MAX { i64::MAX as int } else if v < i64::MIN { i64::MIN as int } else { v }
}

/// Tempo, resolution and time signature of the transport.
#[derive(Debug)]
pub struct Clock {
    ppq: u16,
    bpm: i64,
    time_sig: TimeSignature,
}

impl Clone for Clock {
    fn clone(&self) -> (r: Self)
        ensures
            r == *self,
    {
        proof { use_type_invariant(self); }
        Clock { ppq: self.ppq, bpm: self.bpm, time_sig: self.time_sig }
    }
}

impl Clock {
    /// Pulses per quarter note.
    pub closed spec fn ppq_spec(self) -> int {
        self.ppq as int
    }

    /// Tempo in beats per minute.
    pub closed spec fn bpm_spec(self) -> int {
        self.bpm as int
    }

    /// Time signature.
    pub closed spec fn time_sig_spec(self) -> TimeSignature {
        self.time_sig
    }

    /// A time signature with a zero denominator is never stored.
    #[verifier::type_invariant]
    closed spec fn valid(self) -> bool {
        self.time_sig.denominator > 0
    }

    /// A clock at `bpm` with 480 PPQ in 4/4.
    pub fn new(bpm: i64) -> (r: Clock)
        ensures
            r.bpm_spec() == bpm,
            r.ppq_spec() == 480,
            r.time_sig_spec() == (TimeSignature { numerator: 4, denominator: 4 }),
    {
        Clock { ppq: DEFAULT_PPQ, bpm, time_sig: TimeSignature { numerator: 4, denominator: 4 } }
    }

    /// A clock at `bpm` with the given PPQ in 4/4.
    pub fn with_ppq(bpm: i64, ppq: u16) -> (r: Clock)
        ensures
            r.bpm_spec() == bpm,
            r.ppq_spec() == ppq,
            r.time_sig_spec() == (TimeSignature { numerator: 4, denominator: 4 }),
    {
        Clock { ppq, bpm, time_sig: TimeSignature { numerator: 4, denominator: 4 } }
    }

    /// The tempo in beats per minute.
    pub fn bpm(&self) -> (r: i64)
        ensures
            r == self.bpm_spec(),
    {
        self.bpm
    }

    /// The resolution in pulses per quarter note.
    pub fn ppq(&self) -> (r: u16)
        ensures
            r == self.ppq_spec(),
    {
        self.ppq
    }

    /// The time signature.
    pub fn time_sig(&self) -> (r: &TimeSignature)
        ensures
            *r == self.time_sig_spec(),
            r.denominator > 0,
    {
        proof { use_type_invariant(self); }
        &self.time_sig
    }

    /// Sets the tempo.
    pub fn set_bpm(&mut self, bpm: i64)
        ensures
            final(self).bpm_spec() == bpm,
            final(self).ppq_spec() == old(self).ppq_spec(),
            final(self).time_sig_spec() == old(self).time_sig_spec(),
    {
        proof { use_type_invariant(&*self); }
        self.bpm = bpm;
    }

    /// Sets the time signature (the denominator must not be zero: every
    /// bar computation divides by it).
    pub fn set_time_sig(&mut self, ts: TimeSignature)
        requires
            ts.denominator > 0,
        ensures
            final(self).time_sig_spec() == ts,
            final(self).bpm_spec() == old(self).bpm_spec(),
            final(self).ppq_spec() == old(self).ppq_spec(),
    {
        proof { use_type_invariant(&*self); }
        self.time_sig = ts;
    }

    /// Microseconds per tick = 60,000,000 / (bpm * ppq).
    pub fn tick_duration_us(&self) -> (r: u64)
        ensures
            r == tick_duration_spec(self.bpm_spec(), self.ppq_spec()),
    {
        let ppq = self.ppq as i64;
        if self.bpm > 0 && ppq > 0 {
            proof {
                assert((self.bpm as u128) * (ppq as u128) <= 0x7fff_ffff_ffff_ffffu128 * 0xffffu128) by (nonlinear_arith)
                    requires 0 < self.bpm <= 0x7fff_ffff_ffff_ffff, 0 < ppq <= 0xffff;
            }
            let prod: u128 = (self.bpm as u128) * (ppq as u128);
            proof {
                assert(prod == self.bpm * ppq && prod > 0) by (nonlinear_arith)
                    requires
                        prod == (self.bpm as u128) * (ppq as u128),
                        self.bpm > 0,
                        ppq > 0;
                assert(self.bpm * ppq > 0);
                assert(MICROS_PER_MINUTE as u128 / prod <= 60_000_000);
            }
            let q: u128 = MICROS_PER_MINUTE as u128 / prod;
            q as u64
        } else {
            proof {
                assert(self.bpm * ppq <= 0) by (nonlinear_arith)
                    requires !(self.bpm > 0 && ppq > 0), ppq >= 0;
            }
            if self.bpm < 0 {
                0
            } else {
                u64::MAX
            }
        }
    }

    /// Ticks per bar = ppq * numerator * 4 / denominator.
    pub fn ticks_per_bar(&self) -> (r: u64)
        ensures
            r == ticks_per_bar_spec(self.ppq_spec(), self.time_sig_spec()),
            r <= 0xffff * 0xff * 4,
    {
        proof {
            use_type_invariant(self);
            assert((self.ppq as u64) * (self.time_sig.numerator as u64) <= 0xffffu64 * 0xffu64) by (nonlinear_arith)
                requires self.ppq <= 0xffff, self.time_sig.numerator <= 0xff;
            let p = (self.ppq as int) * (self.time_sig.numerator as int) * 4;
            assert(p / (self.time_sig.denominator as int) <= p) by (nonlinear_arith)
                requires p >= 0, self.time_sig.denominator >= 1;
        }
        (self.ppq as u64) * (self.time_sig.numerator as u64) * 4 / (self.time_sig.denominator as u64)
    }

    /// Ticks per beat of the time signature = ppq * 4 / denominator.
    pub fn ticks_per_beat(&self) -> (r: u64)
        ensures
            r == ticks_per_beat_spec(self.ppq_spec(), self.time_sig_spec()),
    {
        proof { use_type_invariant(self); }
        (self.ppq as u64) * 4 / (self.time_sig.denominator as u64)
    }

    /// Ticks of a note value (4 = quarter, 8 = eighth, ...), dotted adding
    /// half of the base length.
    pub fn duration_to_ticks(&self, duration: u16, dotted: bool) -> (r: u64)
        requires
            duration > 0,
        ensures
            r == duration_ticks_spec(self.ppq_spec(), duration as int, dotted),
            r <= self.ppq_spec() * 6,
            r <= 0xffff * 6,
    {
        let base = (self.ppq as u64) * 4 / (duration as u64);
        proof {
            assert(base <= self.ppq * 4) by (nonlinear_arith)
                requires base == (self.ppq as int) * 4 / (duration as int), duration > 0;
        }
        if dotted {
            base * 3 / 2
        } else {
            base
        }
    }

    /// Whether a MIDI Timing Clock (24 per quarter note) falls on `tick`.
    pub fn is_clock_tick(&self, tick: u64) -> (r: bool)
        ensures
            r == ((tick as int) % (if self.ppq_spec() / 24 == 0 { 1int } else { self.ppq_spec() / 24 }) == 0),
    {
        let step = (self.ppq / 24) as u64;
        let step = if step == 0 { 1 } else { step };
        tick % step == 0
    }

    /// Applies a tempo block: an absolute tempo replaces the BPM, a relative
    /// one adds to it.
    pub fn apply_tempo(&mut self, tempo: &Tempo)
        ensures
            final(self).bpm_spec() == match *tempo {
                Tempo::Absolute(v) => v as int,
                Tempo::Relative(d) => clamp_i64(old(self).bpm_spec() + d),
            },
            final(self).ppq_spec() == old(self).ppq_spec(),
            final(self).time_sig_spec() == old(self).time_sig_spec(),
    {
        proof { use_type_invariant(&*self); }
        match tempo {
            Tempo::Absolute(v) => self.bpm = *v as i64,
            Tempo::Relative(d) => {
                let cur = self.bpm;
                let dd = *d as i64;
                self.bpm = if dd > 0 && cur > i64::MAX - dd {
                    i64::MAX
                } else if dd < 0 && cur < i64::MIN - dd {
                    i64::MIN
                } else {
                    cur + dd
                };
            },
        }
    }
}

} // verus!
