//! Timing decisions of the playback driver: how to wait for the next tick
//! (sleep, then spin), how late ticks and lock waits are classified, and
//! the tick bookkeeping of one driver step.

use vstd::prelude::*;

use std::time::Duration;
use std::time::Instant;

use crate::clock::{tick_duration_spec, ticks_per_bar_spec, Clock};

verus! {

#[verifier::external_type_specification]
#[verifier::external_body]
pub struct ExInstant(Instant);

/// Remaining time, in milliseconds, under which the driver spins instead
/// of sleeping.
pub const SPIN_THRESHOLD_MS: u64 = 2;

/// The spin threshold in nanoseconds (`SPIN_THRESHOLD_MS` milliseconds).
pub const SPIN_THRESHOLD_NANOS: u128 = 2_000_000;

/// Bars between the grid heads at which staged clip swaps are committed
/// (a clip whose own loop ends earlier swaps in there).
pub const SWAP_QUANTIZE_BARS: u64 = 4;

/// A tick wait longer than this many target intervals is worth a debug note.
pub const TICK_WAIT_DEBUG_MULT: u128 = 2;

/// A tick wait longer than this many target intervals is worth a warning.
pub const TICK_WAIT_WARN_MULT: u128 = 5;

/// A lock wait above this percentage of the tick interval is worth a warning.
pub const LOCK_WAIT_WARN_PERCENT: u128 = 50;

/// The nanoseconds from `now` to `deadline` (0 when the deadline is not
/// after `now`): what `nanos_until` computes, a function of the two
/// instants alone.
pub uninterp spec fn nanos_between(now: Instant, deadline: Instant) -> u128;

/// The length of a duration in nanoseconds (`Duration::as_nanos`).
pub uninterp spec fn duration_as_nanos(d: Duration) -> u128;

/// `Instant::saturating_duration_since` followed by `Duration::as_nanos`:
/// the nanoseconds from `now` to `deadline`, 0 when the deadline is not
/// after `now`. The result is named by `nanos_between`; Verus sees nothing
/// inside an instant, so its value is not stated further.
#[verifier::external_body]
fn nanos_until(now: Instant, deadline: Instant) -> (r: u128)
    ensures
        r == nanos_between(now, deadline),
{
    deadline.saturating_duration_since(now).as_nanos()
}

/// `Duration::new`: the duration of `secs` seconds and `nanos`
/// nanoseconds (with `nanos` below one second nothing carries over).
#[verifier::external_body]
fn duration_new(secs: u64, nanos: u32) -> (r: Duration)
    requires
        nanos < 1_000_000_000,
    ensures
        duration_as_nanos(r) == secs as int * 1_000_000_000 + nanos as int,
{
    Duration::new(secs, nanos)
}

/// `Duration::from_millis`: the duration of `ms` milliseconds.
#[verifier::external_body]
fn duration_from_millis(ms: u64) -> (r: Duration)
    ensures
        duration_as_nanos(r) == ms as int * 1_000_000,
{
    Duration::from_millis(ms)
}

/// The spin threshold as a duration: `SPIN_THRESHOLD_MS` milliseconds.
pub fn spin_threshold() -> (r: Duration)
    ensures
        duration_as_nanos(r) == SPIN_THRESHOLD_NANOS,
{
    duration_from_millis(SPIN_THRESHOLD_MS)
}

/// How to wait for the next tick.
#[derive(Debug, Clone, Copy, PartialEq, Eq)]
pub enum WaitStrategy {
    /// Sleep this long, then decide again.
    Sleep(Duration),
    /// Spin until this instant.
    SpinUntil(Instant),
    /// The deadline has passed: step now.
    NoWait,
}

/// How to wait, as a plain decision on the remaining time.
#[derive(Debug, Clone, Copy, PartialEq, Eq, Structural)]
pub enum WaitPlan {
    NoWait,
    Spin,
    /// Sleep for this many nanoseconds.
    SleepNanos(u128),
}

/// The plan for `remaining` nanoseconds left: none left means step now;
/// up to the spin threshold means spin; beyond it, sleep until the spin
/// threshold remains.
pub open spec fn wait_plan_spec(remaining: u128) -> WaitPlan {
    if remaining == 0 {
        WaitPlan::NoWait
    } else if remaining <= SPIN_THRESHOLD_NANOS {
        WaitPlan::Spin
    } else {
        WaitPlan::SleepNanos((remaining - SPIN_THRESHOLD_NANOS) as u128)
    }
}

/// Decides how to wait with `remaining` nanoseconds left.
pub fn wait_plan(remaining: u128) -> (r: WaitPlan)
    ensures
        r == wait_plan_spec(remaining),
{
    if remaining == 0 {
        WaitPlan::NoWait
    } else if remaining <= SPIN_THRESHOLD_NANOS {
        WaitPlan::Spin
    } else {
        WaitPlan::SleepNanos(remaining - SPIN_THRESHOLD_NANOS)
    }
}

/// The length of a sleep of `ns` nanoseconds as a duration holds it: whole
/// seconds beyond `u64::MAX` are capped there.
pub open spec fn sleep_length(ns: u128) -> int {
    if ns / 1_000_000_000 > u64::MAX {
        u64::MAX as int * 1_000_000_000 + ns % 1_000_000_000
    } else {
        ns as int
    }
}

/// `s` carries out the plan `p` for the deadline `deadline`.
pub open spec fn carries_out(p: WaitPlan, deadline: Instant, s: WaitStrategy) -> bool {
    match p {
        WaitPlan::NoWait => s is NoWait,
        WaitPlan::Spin => s == WaitStrategy::SpinUntil(deadline),
        WaitPlan::SleepNanos(ns) => s matches WaitStrategy::Sleep(d) && duration_as_nanos(d) == sleep_length(ns),
    }
}

/// Decides how to wait from `now` until `deadline`: step at once when the
/// deadline has come, spin until it when at most the spin threshold is
/// left, else sleep until the spin threshold is left: the plan for the
/// time left (see `wait_plan_spec`).
pub fn next_wait_strategy(now: Instant, deadline: Instant) -> (r: WaitStrategy)
    ensures
        carries_out(wait_plan_spec(nanos_between(now, deadline)), deadline, r),
{
    let remaining = nanos_until(now, deadline);
    match wait_plan(remaining) {
        WaitPlan::NoWait => WaitStrategy::NoWait,
        WaitPlan::Spin => WaitStrategy::SpinUntil(deadline),
        WaitPlan::SleepNanos(ns) => {
            let secs = ns / 1_000_000_000;
            let sub = ns % 1_000_000_000;
            let secs64: u64 = if secs > u64::MAX as u128 {
                u64::MAX
            } else {
                secs as u64
            };
            WaitStrategy::Sleep(duration_new(secs64, sub as u32))
        },
    }
}

/// Severity of a late tick.
#[derive(Debug, Clone, Copy, PartialEq, Eq, Structural)]
pub enum TickWaitDiag {
    /// Within twice the target interval.
    Normal,
    /// Beyond twice and up to five times the target interval.
    Debug,
    /// Beyond five times the target interval.
    Warn,
}

/// `a * b`, saturating at `u128::MAX`.
pub open spec fn sat_mul(a: int, b: int) -> int {
    if a * b > u128::MAX {
        u128::MAX as int
    } else {
        a * b
    }
}

/// `a * b`, saturating at `u128::MAX`.
fn saturating_mul_u128(a: u128, b: u128) -> (r: u128)
    ensures
        r == sat_mul(a as int, b as int),
{
    match a.checked_mul(b) {
        Some(x) => x,
        None => u128::MAX,
    }
}

/// Classifies a tick wait of `waited_us` against a target interval of
/// `target_us` (0 counts as 1): above 5x is a warning, above 2x a debug
/// note, else fine.
pub fn classify_tick_wait(waited_us: u128, target_us: u128) -> (r: TickWaitDiag)
    ensures
        ({
            let target = if target_us == 0 { 1 } else { target_us as int };
            r == if waited_us > sat_mul(target, TICK_WAIT_WARN_MULT as int) {
                TickWaitDiag::Warn
            } else if waited_us > sat_mul(target, TICK_WAIT_DEBUG_MULT as int) {
                TickWaitDiag::Debug
            } else {
                TickWaitDiag::Normal
            }
        }),
{
    let target = if target_us == 0 { 1 } else { target_us };
    if waited_us > saturating_mul_u128(target, TICK_WAIT_WARN_MULT) {
        TickWaitDiag::Warn
    } else if waited_us > saturating_mul_u128(target, TICK_WAIT_DEBUG_MULT) {
        TickWaitDiag::Debug
    } else {
        TickWaitDiag::Normal
    }
}

/// Whether a lock wait of `lock_wait_us` exceeds half of a tick interval of
/// `target_us` (0 counts as 1).
pub fn lock_wait_exceeds_threshold(lock_wait_us: u128, target_us: u128) -> (r: bool)
    ensures
        ({
            let target = if target_us == 0 { 1 } else { target_us as int };
            r == (sat_mul(lock_wait_us as int, 100) > sat_mul(target, LOCK_WAIT_WARN_PERCENT as int))
        }),
{
    let target = if target_us == 0 { 1 } else { target_us };
    saturating_mul_u128(lock_wait_us, 100) > saturating_mul_u128(target, LOCK_WAIT_WARN_PERCENT)
}

/// The grid, in ticks, on which staged swaps and forced session moves
/// happen: `SWAP_QUANTIZE_BARS` bars, held at `u64::MAX`.
pub open spec fn grid_ticks(clock: Clock) -> u64 {
    if ticks_per_bar_spec(clock.ppq_spec(), clock.time_sig_spec()) * SWAP_QUANTIZE_BARS > u64::MAX {
        u64::MAX
    } else {
        (ticks_per_bar_spec(clock.ppq_spec(), clock.time_sig_spec()) * SWAP_QUANTIZE_BARS) as u64
    }
}

/// A MIDI Timing Clock is due: a scene plays and `tick` falls on the
/// 24-per-quarter grid.
pub open spec fn timing_clock_due(active: bool, clock: Clock, tick: u64) -> bool {
    active && (tick as int) % (if clock.ppq_spec() / 24 == 0 {
        1int
    } else {
        clock.ppq_spec() / 24
    }) == 0
}

/// The grid, in ticks, on which staged clip swaps and forced session
/// transitions happen: four bars.
pub fn swap_grid(clock: &Clock) -> (r: u64)
    ensures
        r == grid_ticks(*clock),
{
    match clock.ticks_per_bar().checked_mul(SWAP_QUANTIZE_BARS) {
        Some(x) => x,
        None => u64::MAX,
    }
}

/// Outcome of a scene transition attempt.
#[derive(Debug, Clone, PartialEq)]
pub enum SceneTransitionOutcome {
    /// The same scene keeps playing.
    Continue,
    /// The next scene of the session has been set up.
    NextScene { scene_name: String },
    /// The scene ended; playback stopped.
    SceneComplete,
    /// The session ended; playback stopped.
    SessionComplete,
}

/// A device whose MIDI port could not be opened.
#[derive(Debug, Clone, PartialEq, Eq)]
pub struct DeviceConnectionError {
    pub port: String,
    pub message: String,
}

/// The tick counters of the playback driver: the tick within the scene
/// loop, the ticks played since the song head, and whether a scene was
/// playing at the last step.
#[derive(Debug, Clone, Copy, PartialEq, Eq, Structural)]
pub struct TickState {
    pub current_tick: u64,
    pub transport_tick: u64,
    pub was_active: bool,
}

impl TickState {
    /// Stopped, at the song head.
    pub fn new() -> (r: TickState)
        ensures
            r == (TickState { current_tick: 0, transport_tick: 0, was_active: false }),
    {
        TickState { current_tick: 0, transport_tick: 0, was_active: false }
    }

    /// Whether this step stands on a grid head at which an update can force
    /// the session on: a scene was already playing and still is.
    pub fn at_forced_transition_grid(&self, active: bool, grid: u64) -> (r: bool)
        ensures
            r == (self.was_active && active && grid > 0 && self.transport_tick % grid == 0),
    {
        self.was_active && active && grid > 0 && self.transport_tick % grid == 0
    }

    /// After a transition: a new scene starts from its head; the song
    /// position is kept.
    pub fn apply_transition(&mut self, outcome: &SceneTransitionOutcome)
        ensures
            final(self).transport_tick == old(self).transport_tick,
            final(self).was_active == old(self).was_active,
            final(self).current_tick == if outcome is NextScene {
                0
            } else {
                old(self).current_tick
            },
    {
        if let SceneTransitionOutcome::NextScene { .. } = outcome {
            self.current_tick = 0;
        }
    }

    /// Starts a step: when playback has just started both counters restart
    /// from the song head; when nothing plays they reset. Returns whether
    /// staged clip swaps take effect at this step (a grid head while
    /// playing).
    pub fn begin_step(&mut self, active: bool, grid: u64) -> (commit: bool)
        ensures
            active && !old(self).was_active ==> *final(self) == (TickState {
                current_tick: 0,
                transport_tick: 0,
                was_active: true,
            }),
            active && old(self).was_active ==> *final(self) == *old(self),
            !active ==> *final(self) == (TickState { current_tick: 0, transport_tick: 0, was_active: false }),
            commit == (active && grid > 0 && final(self).transport_tick % grid == 0),
    {
        if active {
            if !self.was_active {
                self.current_tick = 0;
                self.transport_tick = 0;
                self.was_active = true;
            }
            grid > 0 && self.transport_tick % grid == 0
        } else {
            self.current_tick = 0;
            self.transport_tick = 0;
            self.was_active = false;
            false
        }
    }

    /// Ends a step: while playing both counters move on by one. Returns
    /// whether the scene loop completed (the tick within the scene reached
    /// a multiple of the scene length).
    pub fn finish_step(&mut self, active: bool, scene_len: u64) -> (loop_done: bool)
        requires
            active ==> old(self).current_tick < u64::MAX && old(self).transport_tick < u64::MAX,
        ensures
            !active ==> *final(self) == *old(self) && !loop_done,
            active ==> *final(self) == (TickState {
                current_tick: (old(self).current_tick + 1) as u64,
                transport_tick: (old(self).transport_tick + 1) as u64,
                was_active: old(self).was_active,
            }),
            active ==> loop_done == (scene_len > 0 && final(self).current_tick % scene_len == 0),
    {
        if !active {
            return false;
        }
        self.current_tick = self.current_tick + 1;
        self.transport_tick = self.transport_tick + 1;
        scene_len > 0 && self.current_tick % scene_len == 0
    }
}

/// Whether a MIDI Timing Clock is due at this step: a scene plays and the
/// tick falls on the 24-per-quarter grid.
pub fn emits_timing_clock(active: bool, clock: &Clock, tick: u64) -> (r: bool)
    ensures
        r == timing_clock_due(active, *clock, tick),
{
    active && clock.is_clock_tick(tick)
}

/// The tick interval used by the driver loop: the clock's tick duration,
/// at least 1 µs.
pub fn driver_interval_us(clock: &Clock) -> (r: u64)
    ensures
        r >= 1,
        r == if tick_duration_spec(clock.bpm_spec(), clock.ppq_spec()) == 0 {
            1
        } else {
            tick_duration_spec(clock.bpm_spec(), clock.ppq_spec())
        },
{
    let d = clock.tick_duration_us();
    if d == 0 {
        1
    } else {
        d
    }
}

} // verus!
