//! Compilation of CC automation lines into control change events: step
//! lines (one value per sixteenth) and time-point lines with optional
//! ramps.
//!
//! A ramp's value at step `s` of `n` is the exact value of the line from
//! the start value to the target (linear: `s/n`; exponential: `(s/n)^2`)
//! rounded half away from zero.

use vstd::prelude::*;

use crate::ast::{CcAutomation, CcMapping, CcStepValues, CcTimeSegment, CcTimeValues, Interpolation};
use crate::cells::{expand_bar_jump_cells, expand_jumps_spec, expand_pipe_cells, pipe_fold};
use crate::clock::{duration_ticks_spec, ticks_per_bar_spec, Clock};
use crate::compiler::{reports, CompileFailure, MidiEvent};
use crate::domain::MidiChannel;
use crate::emit::{view_event, view_events, EventView};
use crate::error::EngineError;
use crate::midi::MidiMessage;
use crate::pitched::{arith_error, arith_failure};
use crate::registry::{Registry, RegistryModel};
use crate::text::{owned, same_text};

verus! {

/// The CC number of the first mapping named `alias`.
pub open spec fn first_cc(mappings: Seq<CcMapping>, alias: Seq<char>) -> Option<u8>
    decreases mappings.len(),
{
    if mappings.len() == 0 {
        None
    } else if mappings[0].alias@ == alias {
        Some(mappings[0].cc_number)
    } else {
        first_cc(mappings.drop_first(), alias)
    }
}

/// The message of a CC name that the instrument does not map.
pub open spec fn missing_cc_failure(param: Seq<char>, instrument: Seq<char>) -> Seq<char> {
    "CC mapping '"@ + param + "' not found in instrument '"@ + instrument + "'"@
}

/// Channel, device and CC number an automation line drives.
pub open spec fn cc_route(reg: RegistryModel, instrument: Seq<char>, param: Seq<char>) -> Result<
    (MidiChannel, Seq<char>, u8),
    CompileFailure,
> {
    if !reg.instruments.contains_key(instrument) {
        Err(CompileFailure::UnknownInstrument(instrument))
    } else {
        let inst = reg.instruments[instrument];
        match first_cc(inst.cc_mappings@, param) {
            None => Err(CompileFailure::Message(missing_cc_failure(param, instrument))),
            Some(cc) => Ok((inst.channel, inst.device@, cc)),
        }
    }
}

/// A control change event.
pub open spec fn cc_event(tick: int, channel: MidiChannel, device: Seq<char>, cc: u8, value: u8) -> EventView {
    EventView { tick: tick as u64, message: MidiMessage::ControlChange { channel, cc, value }, device }
}

/// Ticks of a sixteenth.
pub open spec fn sixteenth(clock: Clock) -> int {
    duration_ticks_spec(clock.ppq_spec(), 16, false)
}

/// Cells per bar of a step line: bar length over a sixteenth, at least 1.
pub open spec fn steps_per_bar(clock: Clock) -> int {
    let t = if sixteenth(clock) > 0 {
        sixteenth(clock)
    } else {
        1
    };
    let n = ticks_per_bar_spec(clock.ppq_spec(), clock.time_sig_spec()) / t;
    if n > 0 {
        n
    } else {
        1
    }
}

/// Cells of a step line of a clip of `bars` bars, saturating.
pub open spec fn step_total(clock: Clock, bars: Option<u32>) -> Option<nat> {
    match bars {
        Some(b) => Some(
            if b * steps_per_bar(clock) > usize::MAX {
                usize::MAX as nat
            } else {
                (b * steps_per_bar(clock)) as nat
            },
        ),
        None => None,
    }
}

/// The events of the first `n` resolved cells: a value at cell `i` is
/// sent at tick `i` sixteenths.
pub open spec fn step_events(cells: Seq<Option<u8>>, tps: int, channel: MidiChannel, device: Seq<char>, cc: u8, n: int) -> Result<
    Seq<EventView>,
    Seq<char>,
>
    decreases n,
{
    if n <= 0 {
        Ok(Seq::empty())
    } else {
        match step_events(cells, tps, channel, device, cc, n - 1) {
            Err(m) => Err(m),
            Ok(evs) => match cells[n - 1] {
                None => Ok(evs),
                Some(v) => if (n - 1) * tps > u64::MAX {
                    Err(arith_failure())
                } else {
                    Ok(evs.push(cc_event((n - 1) * tps, channel, device, cc, v)))
                },
            },
        }
    }
}

/// The events of a step line.
pub open spec fn step_line_spec(reg: RegistryModel, clock: Clock, bars: Option<u32>, step: CcStepValues) -> Result<
    Seq<EventView>,
    CompileFailure,
> {
    match cc_route(reg, step.target.instrument@, step.target.param@) {
        Err(f) => Err(f),
        Ok((channel, device, cc)) => {
            let piped = pipe_fold(step.cells@, 4, step.cells@.len() as int).out;
            match expand_jumps_spec(piped, steps_per_bar(clock) as nat, step_total(clock, bars)) {
                Err(m) => Err(CompileFailure::Message(m)),
                Ok(cells) => match step_events(cells, sixteenth(clock), channel, device, cc, cells.len() as int) {
                    Err(m) => Err(CompileFailure::Message(m)),
                    Ok(evs) => Ok(evs),
                },
            }
        },
    }
}

/// `p / q` rounded half away from zero, for `p >= 0`, `q > 0`.
pub open spec fn round_div(p: int, q: int) -> int {
    (2 * p + q) / (2 * q)
}

/// A ramp's value at step `s` of `n`.
pub open spec fn ramp_value(interp: Interpolation, from: u8, to: u8, s: int, n: int) -> int {
    match interp {
        Interpolation::NoRamp => to as int,
        Interpolation::Linear => round_div(from * n + (to - from) * s, n),
        Interpolation::Exponential => round_div(from * n * n + (to - from) * s * s, n * n),
    }
}

/// Tick of a time point `bar:beat` (both 1-based).
pub open spec fn point_tick(bar: u32, beat: u32, bar_ticks: int, beat_ticks: int) -> int {
    (bar - 1) * bar_ticks + (beat - 1) * beat_ticks
}

/// The ramp events of steps `1..=k`.
pub open spec fn ramp_events(
    interp: Interpolation,
    from: u8,
    to: u8,
    from_tick: int,
    step: int,
    n: int,
    channel: MidiChannel,
    device: Seq<char>,
    cc: u8,
    k: int,
) -> Seq<EventView>
    decreases k,
{
    if k <= 0 {
        Seq::empty()
    } else {
        ramp_events(interp, from, to, from_tick, step, n, channel, device, cc, k - 1) + seq![
            cc_event(from_tick + k * step, channel, device, cc, ramp_value(interp, from, to, k, n) as u8),
        ]
    }
}

/// The events of one time segment: the start value at its point, then,
/// when a later target point is given, one value per sixteenth of the
/// ramp up to the target.
pub open spec fn segment_events(
    seg: CcTimeSegment,
    bar_ticks: int,
    beat_ticks: int,
    step: int,
    channel: MidiChannel,
    device: Seq<char>,
    cc: u8,
) -> Result<Seq<EventView>, Seq<char>> {
    if seg.from.bar == 0 || seg.from.beat == 0 {
        Err(arith_failure())
    } else {
        let from_tick = point_tick(seg.from.bar, seg.from.beat, bar_ticks, beat_ticks);
        let start = seq![cc_event(from_tick, channel, device, cc, seg.from.value)];
        match seg.to {
            None => Ok(start),
            Some((interp, tp)) => if tp.bar == 0 || tp.beat == 0 {
                Err(arith_failure())
            } else {
                let to_tick = point_tick(tp.bar, tp.beat, bar_ticks, beat_ticks);
                if to_tick <= from_tick {
                    Ok(start)
                } else if step == 0 {
                    Err(arith_failure())
                } else {
                    let span = to_tick - from_tick;
                    let n = if span / step > 0 {
                        span / step
                    } else {
                        1
                    };
                    let k = if span / step > 0 {
                        n
                    } else {
                        0
                    };
                    Ok(start + ramp_events(interp, seg.from.value, tp.value, from_tick, step, n, channel, device, cc, k))
                }
            },
        }
    }
}

/// The events of the first `k` segments.
pub open spec fn segments_events(
    segs: Seq<CcTimeSegment>,
    bar_ticks: int,
    beat_ticks: int,
    step: int,
    channel: MidiChannel,
    device: Seq<char>,
    cc: u8,
    k: int,
) -> Result<Seq<EventView>, Seq<char>>
    decreases k,
{
    if k <= 0 {
        Ok(Seq::empty())
    } else {
        match segments_events(segs, bar_ticks, beat_ticks, step, channel, device, cc, k - 1) {
            Err(m) => Err(m),
            Ok(evs) => match segment_events(segs[k - 1], bar_ticks, beat_ticks, step, channel, device, cc) {
                Err(m) => Err(m),
                Ok(more) => Ok(evs + more),
            },
        }
    }
}

/// The events of a time-point line.
pub open spec fn time_line_spec(reg: RegistryModel, clock: Clock, time: CcTimeValues) -> Result<Seq<EventView>, CompileFailure> {
    match cc_route(reg, time.target.instrument@, time.target.param@) {
        Err(f) => Err(f),
        Ok((channel, device, cc)) => {
            let bar_ticks = ticks_per_bar_spec(clock.ppq_spec(), clock.time_sig_spec());
            let num = clock.time_sig_spec().numerator;
            if num == 0 {
                Err(CompileFailure::Message(arith_failure()))
            } else {
                match segments_events(
                    time.segments@,
                    bar_ticks,
                    bar_ticks / (num as int),
                    sixteenth(clock),
                    channel,
                    device,
                    cc,
                    time.segments@.len() as int,
                ) {
                    Err(m) => Err(CompileFailure::Message(m)),
                    Ok(evs) => Ok(evs),
                }
            }
        },
    }
}

/// The events of the first `k` automation lines, line after line.
pub open spec fn automations_spec(reg: RegistryModel, clock: Clock, bars: Option<u32>, autos: Seq<CcAutomation>, k: int) -> Result<
    Seq<EventView>,
    CompileFailure,
>
    decreases k,
{
    if k <= 0 {
        Ok(Seq::empty())
    } else {
        match automations_spec(reg, clock, bars, autos, k - 1) {
            Err(f) => Err(f),
            Ok(evs) => {
                let line = match autos[k - 1] {
                    CcAutomation::Step(step) => step_line_spec(reg, clock, bars, step),
                    CcAutomation::Time(time) => time_line_spec(reg, clock, time),
                };
                match line {
                    Err(f) => Err(f),
                    Ok(more) => Ok(evs + more),
                }
            },
        }
    }
}

/// The CC number of the first mapping named `alias`.
fn find_cc(mappings: &Vec<CcMapping>, alias: &str) -> (r: Option<u8>)
    ensures
        r == first_cc(mappings@, alias@),
{
    let mut i: usize = 0;
    assert(mappings@.skip(0) =~= mappings@);
    while i < mappings.len()
        invariant
            i <= mappings@.len(),
            first_cc(mappings@, alias@) == first_cc(mappings@.skip(i as int), alias@),
        decreases mappings@.len() - i,
    {
        assert(mappings@.skip(i as int)[0] == mappings@[i as int]);
        assert(mappings@.skip(i as int).drop_first() =~= mappings@.skip(i + 1));
        if same_text(&mappings[i].alias, alias) {
            return Some(mappings[i].cc_number);
        }
        i += 1;
    }
    assert(mappings@.skip(i as int).len() == 0);
    None
}

/// The error of a CC name that the instrument does not map.
fn missing_cc_error(param: &str, instrument: &str) -> (r: EngineError)
    ensures
        reports(r, CompileFailure::Message(missing_cc_failure(param@, instrument@))),
{
    let mut m = owned("CC mapping '");
    m.append(param);
    m.append("' not found in instrument '");
    m.append(instrument);
    m.append("'");
    assert(m@ =~= missing_cc_failure(param@, instrument@));
    EngineError::CompileError(m)
}

/// Channel, device and CC number an automation line drives.
fn route_of(registry: &Registry, instrument: &String, param: &String) -> (r: Result<(MidiChannel, String, u8), EngineError>)
    requires
        registry.wf(),
    ensures
        match cc_route(registry@, instrument@, param@) {
            Ok((ch, dev, cc)) => r matches Ok((c2, d2, n2)) && c2 == ch && d2@ == dev && n2 == cc,
            Err(f) => r matches Err(e) && reports(e, f),
        },
{
    let inst = match registry.get_instrument(instrument.as_str()) {
        Some(i) => i,
        None => return Err(EngineError::UnknownInstrument(instrument.clone())),
    };
    match find_cc(&inst.cc_mappings, param.as_str()) {
        Some(cc) => Ok((inst.channel, inst.device.clone(), cc)),
        None => Err(missing_cc_error(param.as_str(), instrument.as_str())),
    }
}

/// The ticks of a sixteenth under the clock.
fn sixteenth_ticks(clock: &Clock) -> (r: u64)
    ensures
        r == sixteenth(*clock),
        r <= 0xffff * 6,
{
    clock.duration_to_ticks(16, false)
}

/// Compiles a step line: see `step_line_spec`.
fn compile_step_line(step: &CcStepValues, clock: &Clock, registry: &Registry, bars: Option<u32>) -> (r: Result<Vec<MidiEvent>, EngineError>)
    requires
        registry.wf(),
    ensures
        match step_line_spec(registry@, *clock, bars, *step) {
            Ok(evs) => r matches Ok(v) && view_events(v@) == evs,
            Err(f) => r matches Err(e) && reports(e, f),
        },
{
    let (channel, device, cc) = match route_of(registry, &step.target.instrument, &step.target.param) {
        Ok(x) => x,
        Err(e) => return Err(e),
    };
    let tps = sixteenth_ticks(clock);
    let bar_ticks = clock.ticks_per_bar();
    let t = if tps > 0 { tps } else { 1 };
    let per_bar64 = bar_ticks / t;
    let per_bar: usize = if per_bar64 > 0 { per_bar64 as usize } else { 1 };
    assert(per_bar == steps_per_bar(*clock));
    let total: Option<usize> = match bars {
        Some(b) => {
            proof {
                assert((b as int) * (per_bar as int) <= 0xffff_ffff * 0xffff_ffff_ffff_ffff) by (nonlinear_arith)
                    requires
                        b <= 0xffff_ffff,
                        per_bar <= 0xffff_ffff_ffff_ffff,
                ;
            }
            let prod: u128 = (b as u128) * (per_bar as u128);
            Some(if prod > usize::MAX as u128 { usize::MAX } else { prod as usize })
        },
        None => None,
    };
    assert(match total {
        Some(t) => Some(t as nat),
        None => None,
    } == step_total(*clock, bars));
    let piped = expand_pipe_cells(&step.cells, 4);
    let cells = match expand_bar_jump_cells(&piped, per_bar, total) {
        Ok(c) => c,
        Err(m) => return Err(EngineError::CompileError(m)),
    };
    let mut out: Vec<MidiEvent> = Vec::new();
    let mut i: usize = 0;
    assert(view_events(out@) =~= Seq::<EventView>::empty());
    let ghost whole = step_line_spec(registry@, *clock, bars, *step);
    assert(whole == match step_events(cells@, tps as int, channel, device@, cc, cells@.len() as int) {
        Err(m) => Err(CompileFailure::Message(m)),
        Ok(evs) => Ok(evs),
    });
    while i < cells.len()
        invariant
            i <= cells@.len(),
            whole == step_line_spec(registry@, *clock, bars, *step),
            whole == match step_events(cells@, tps as int, channel, device@, cc, cells@.len() as int) {
                Err(m) => Err(CompileFailure::Message(m)),
                Ok(evs) => Ok(evs),
            },
            tps == sixteenth(*clock),
            tps <= 0xffff * 6,
            step_events(cells@, tps as int, channel, device@, cc, i as int) == Ok::<Seq<EventView>, Seq<char>>(view_events(out@)),
        decreases cells@.len() - i,
    {
        match cells[i] {
            None => {},
            Some(v) => {
                proof {
                    assert((i as int) * (tps as int) <= 0xffff_ffff_ffff_ffff * (0xffff * 6)) by (nonlinear_arith)
                        requires
                            i <= 0xffff_ffff_ffff_ffff,
                            tps <= 0xffff * 6,
                    ;
                }
                let tick: u128 = (i as u128) * (tps as u128);
                if tick > u64::MAX as u128 {
                    assert(step_events(cells@, tps as int, channel, device@, cc, i + 1) == Err::<Seq<EventView>, Seq<char>>(arith_failure()));
                    proof { lemma_step_events_err(cells@, tps as int, channel, device@, cc, i + 1, cells@.len() as int); }
                    return Err(arith_error());
                }
                out.push(MidiEvent::new(tick as u64, MidiMessage::ControlChange { channel, cc, value: v }, device.as_str()));
                assert(view_events(out@) =~= step_events(cells@, tps as int, channel, device@, cc, i + 1)->Ok_0);
            },
        }
        i += 1;
    }
    Ok(out)
}

/// Once the events of a prefix fail, the line fails the same.
proof fn lemma_step_events_err(cells: Seq<Option<u8>>, tps: int, channel: MidiChannel, device: Seq<char>, cc: u8, i: int, n: int)
    requires
        0 <= i <= n,
        step_events(cells, tps, channel, device, cc, i) is Err,
    ensures
        step_events(cells, tps, channel, device, cc, n) == step_events(cells, tps, channel, device, cc, i),
    decreases n - i,
{
    if i < n {
        lemma_step_events_err(cells, tps, channel, device, cc, i, n - 1);
    }
}

/// `p / q` rounded half away from zero.
fn round_div_exec(p: u128, q: u128) -> (r: u128)
    requires
        q > 0,
        2 * p + q <= u128::MAX,
        2 * q <= u128::MAX,
    ensures
        r == round_div(p as int, q as int),
{
    (2 * p + q) / (2 * q)
}

/// The value of a ramp at step `s` of `n`.
fn ramp_value_exec(interp: Interpolation, from: u8, to: u8, s: u64, n: u64) -> (r: u8)
    requires
        1 <= s <= n,
        n < 0x800_0000_0000_0000,
    ensures
        r == ramp_value(interp, from, to, s as int, n as int),
{
    match interp {
        Interpolation::NoRamp => to,
        Interpolation::Linear => {
            let ghost fi = from as int;
            let ghost ti = to as int;
            let ghost si = s as int;
            let ghost ni = n as int;
            let ghost p: int = fi * ni + (ti - fi) * si;
            proof {
                assert(0 <= p <= 255 * ni) by (nonlinear_arith)
                    requires
                        p == fi * ni + (ti - fi) * si,
                        0 <= fi <= 255,
                        0 <= ti <= 255,
                        1 <= si <= ni,
                ;
                assert(2 * p + ni <= 511 * ni) by (nonlinear_arith)
                    requires
                        p <= 255 * ni,
                        ni >= 1,
                ;
                assert(round_div(p, ni) <= 255) by (nonlinear_arith)
                    requires
                        0 <= p <= 255 * ni,
                        ni >= 1,
                ;
            }
            proof {
                assert(fi * ni <= 255 * 0x800_0000_0000_0000 && 255 * si <= 255 * 0x800_0000_0000_0000) by (nonlinear_arith)
                    requires
                        0 <= fi <= 255,
                        1 <= si <= ni,
                        ni < 0x800_0000_0000_0000,
                ;
                assert((ti - fi) * si <= 255 * si && (fi - ti) * si <= 255 * si) by (nonlinear_arith)
                    requires
                        0 <= fi <= 255,
                        0 <= ti <= 255,
                        si >= 1,
                ;
                assert(fi > ti ==> (fi - ti) * si <= fi * ni) by (nonlinear_arith)
                    requires
                        0 <= ti,
                        1 <= si <= ni,
                ;
            }
            let a: u128 = (from as u128) * (n as u128);
            let pe: u128 = if to >= from {
                let b: u128 = ((to - from) as u128) * (s as u128);
                a + b
            } else {
                let b: u128 = ((from - to) as u128) * (s as u128);
                a - b
            };
            assert(pe == p) by (nonlinear_arith)
                requires
                    pe == if ti >= fi { fi * ni + (ti - fi) * si } else { fi * ni - (fi - ti) * si },
                    p == fi * ni + (ti - fi) * si,
            ;
            let rr = round_div_exec(pe, n as u128);
            assert(rr == round_div(p, ni));
            assert(p == from * (n as int) + (to - from) * (s as int));
            assert(round_div(p, ni) == ramp_value(interp, from, to, s as int, n as int));
            rr as u8
        },
        Interpolation::Exponential => {
            let ghost fi = from as int;
            let ghost ti = to as int;
            let ghost si = s as int;
            let ghost ni = n as int;
            let ghost nn: int = ni * ni;
            let ghost ss: int = si * si;
            let ghost p: int = fi * nn + (ti - fi) * ss;
            proof {
                assert(1 <= ss <= nn && nn < 0x40_0000_0000_0000_0000_0000_0000_0000) by (nonlinear_arith)
                    requires
                        nn == ni * ni,
                        ss == si * si,
                        1 <= si <= ni,
                        ni < 0x800_0000_0000_0000,
                ;
                assert(0 <= p <= 255 * nn) by (nonlinear_arith)
                    requires
                        p == fi * nn + (ti - fi) * ss,
                        0 <= fi <= 255,
                        0 <= ti <= 255,
                        1 <= ss <= nn,
                ;
                assert(round_div(p, nn) <= 255) by (nonlinear_arith)
                    requires
                        0 <= p <= 255 * nn,
                        nn >= 1,
                ;
                assert(2 * p + nn <= 511 * nn) by (nonlinear_arith)
                    requires
                        p <= 255 * nn,
                        nn >= 1,
                ;
            }
            proof {
                assert(ni * ni < 0x40_0000_0000_0000_0000_0000_0000_0000 && si * si <= ni * ni) by (nonlinear_arith)
                    requires
                        1 <= si <= ni,
                        ni < 0x800_0000_0000_0000,
                ;
                assert(fi * nn <= 255 * nn && 255 * nn <= 255 * 0x40_0000_0000_0000_0000_0000_0000_0000) by (nonlinear_arith)
                    requires
                        0 <= fi <= 255,
                        0 <= nn < 0x40_0000_0000_0000_0000_0000_0000_0000,
                ;
                assert((ti - fi) * ss <= 255 * nn && (fi - ti) * ss <= 255 * nn) by (nonlinear_arith)
                    requires
                        0 <= fi <= 255,
                        0 <= ti <= 255,
                        1 <= ss <= nn,
                ;
                assert(fi > ti ==> (fi - ti) * ss <= fi * nn) by (nonlinear_arith)
                    requires
                        0 <= ti,
                        1 <= ss <= nn,
                ;
            }
            let nn_e: u128 = (n as u128) * (n as u128);
            let ss_e: u128 = (s as u128) * (s as u128);
            let a: u128 = (from as u128) * nn_e;
            let pe: u128 = if to >= from {
                let b: u128 = ((to - from) as u128) * ss_e;
                a + b
            } else {
                let b: u128 = ((from - to) as u128) * ss_e;
                a - b
            };
            assert(pe == p) by (nonlinear_arith)
                requires
                    nn_e == nn,
                    ss_e == ss,
                    pe == if ti >= fi { fi * nn + (ti - fi) * ss } else { fi * nn - (fi - ti) * ss },
                    p == fi * nn + (ti - fi) * ss,
            ;
            let rr = round_div_exec(pe, nn_e);
            assert(rr == round_div(p, nn));
            assert(fi * nn == fi * ni * ni && (ti - fi) * ss == (ti - fi) * si * si) by (nonlinear_arith)
                requires
                    nn == ni * ni,
                    ss == si * si,
            ;
            assert(round_div(p, nn) == ramp_value(interp, from, to, s as int, n as int));
            rr as u8
        },
    }
}

/// The tick of a time point (both parts 1-based and positive).
fn point_tick_exec(bar: u32, beat: u32, bar_ticks: u64, beat_ticks: u64) -> (r: u64)
    requires
        bar >= 1,
        beat >= 1,
        beat_ticks <= bar_ticks <= 0xffff * 0xff * 4,
    ensures
        r == point_tick(bar, beat, bar_ticks as int, beat_ticks as int),
        r < 0x800_0000_0000_0000,
{
    proof {
        assert((bar - 1) * (bar_ticks as int) <= 0xffff_ffff * (0xffff * 0xff * 4)) by (nonlinear_arith)
            requires
                0 <= bar - 1 <= 0xffff_ffff,
                bar_ticks <= 0xffff * 0xff * 4,
        ;
        assert((beat - 1) * (beat_ticks as int) <= 0xffff_ffff * (0xffff * 0xff * 4)) by (nonlinear_arith)
            requires
                0 <= beat - 1 <= 0xffff_ffff,
                beat_ticks <= 0xffff * 0xff * 4,
        ;
    }
    ((bar - 1) as u64) * bar_ticks + ((beat - 1) as u64) * beat_ticks
}

/// Appends the events of one time segment: see `segment_events`.
fn compile_segment(
    seg: &CcTimeSegment,
    bar_ticks: u64,
    beat_ticks: u64,
    step: u64,
    channel: MidiChannel,
    device: &str,
    cc: u8,
    out: &mut Vec<MidiEvent>,
) -> (res: Result<(), EngineError>)
    requires
        beat_ticks <= bar_ticks <= 0xffff * 0xff * 4,
    ensures
        match segment_events(*seg, bar_ticks as int, beat_ticks as int, step as int, channel, device@, cc) {
            Ok(more) => res is Ok && view_events(final(out)@) == view_events(old(out)@) + more,
            Err(m) => res matches Err(e) && reports(e, CompileFailure::Message(m)),
        },
{
    if seg.from.bar == 0 || seg.from.beat == 0 {
        return Err(arith_error());
    }
    let from_tick = point_tick_exec(seg.from.bar, seg.from.beat, bar_ticks, beat_ticks);
    let ghost base = view_events(out@);
    out.push(MidiEvent::new(from_tick, MidiMessage::ControlChange { channel, cc, value: seg.from.value }, device));
    let ghost start = seq![cc_event(from_tick as int, channel, device@, cc, seg.from.value)];
    assert(view_events(out@) =~= base + start);
    match seg.to {
        None => Ok(()),
        Some((interp, tp)) => {
            if tp.bar == 0 || tp.beat == 0 {
                return Err(arith_error());
            }
            let to_tick = point_tick_exec(tp.bar, tp.beat, bar_ticks, beat_ticks);
            if to_tick <= from_tick {
                return Ok(());
            }
            if step == 0 {
                return Err(arith_error());
            }
            let span = to_tick - from_tick;
            let q = span / step;
            let n = if q > 0 { q } else { 1 };
            let k = if q > 0 { n } else { 0 };
            proof {
                if q > 0 {
                    assert((q as int) * (step as int) <= span) by (nonlinear_arith)
                        requires
                            q == span / step,
                            step > 0,
                    ;
                }
            }
            let mut s: u64 = 1;
            assert(base + start + ramp_events(interp, seg.from.value, tp.value, from_tick as int, step as int, n as int, channel, device@, cc, 0) =~= base + start);
            while s <= k
                invariant
                    1 <= s <= k + 1,
                    k == 0 || k == n,
                    k > 0 ==> (k as int) * (step as int) <= span,
                    n >= 1,
                    n < 0x800_0000_0000_0000,
                    step > 0,
                    from_tick + span == to_tick,
                    to_tick < 0x800_0000_0000_0000,
                    view_events(out@) == base + start + ramp_events(interp, seg.from.value, tp.value, from_tick as int, step as int, n as int, channel, device@, cc, s - 1),
                decreases k + 1 - s,
            {
                proof {
                    assert((s as int) * (step as int) <= (k as int) * (step as int)) by (nonlinear_arith)
                        requires
                            s <= k,
                            step > 0,
                    ;
                }
                let tick = from_tick + s * step;
                let v = ramp_value_exec(interp, seg.from.value, tp.value, s, n);
                let ghost pre = view_events(out@);
                let ev = MidiEvent::new(tick, MidiMessage::ControlChange { channel, cc, value: v }, device);
                proof {
                    assert(view_event(ev) == cc_event(from_tick + (s as int) * (step as int), channel, device@, cc, ramp_value(interp, seg.from.value, tp.value, s as int, n as int) as u8));
                }
                out.push(ev);
                proof {
                    assert(view_events(out@) =~= pre.push(view_event(ev)));
                    let prev = ramp_events(interp, seg.from.value, tp.value, from_tick as int, step as int, n as int, channel, device@, cc, s - 1);
                    assert(ramp_events(interp, seg.from.value, tp.value, from_tick as int, step as int, n as int, channel, device@, cc, s as int)
                        == prev + seq![view_event(ev)]);
                    assert(view_events(out@) =~= base + start + ramp_events(interp, seg.from.value, tp.value, from_tick as int, step as int, n as int, channel, device@, cc, s as int));
                }
                s = s + 1;
            }
            proof {
                assert(q == span / step);
                if q > 0 {
                    assert((q as int) * (step as int) <= span) by (nonlinear_arith)
                        requires
                            q == span / step,
                            step > 0,
                    ;
                }
            }
            Ok(())
        },
    }
}

/// Once the events of a prefix of segments fail, the line fails the same.
proof fn lemma_segments_err(
    segs: Seq<CcTimeSegment>,
    bar_ticks: int,
    beat_ticks: int,
    step: int,
    channel: MidiChannel,
    device: Seq<char>,
    cc: u8,
    i: int,
    n: int,
)
    requires
        0 <= i <= n,
        segments_events(segs, bar_ticks, beat_ticks, step, channel, device, cc, i) is Err,
    ensures
        segments_events(segs, bar_ticks, beat_ticks, step, channel, device, cc, n) == segments_events(
            segs,
            bar_ticks,
            beat_ticks,
            step,
            channel,
            device,
            cc,
            i,
        ),
    decreases n - i,
{
    if i < n {
        lemma_segments_err(segs, bar_ticks, beat_ticks, step, channel, device, cc, i, n - 1);
    }
}

/// Compiles a time-point line: see `time_line_spec`.
fn compile_time_line(time: &CcTimeValues, clock: &Clock, registry: &Registry) -> (r: Result<Vec<MidiEvent>, EngineError>)
    requires
        registry.wf(),
    ensures
        match time_line_spec(registry@, *clock, *time) {
            Ok(evs) => r matches Ok(v) && view_events(v@) == evs,
            Err(f) => r matches Err(e) && reports(e, f),
        },
{
    let (channel, device, cc) = match route_of(registry, &time.target.instrument, &time.target.param) {
        Ok(x) => x,
        Err(e) => return Err(e),
    };
    let bar_ticks = clock.ticks_per_bar();
    let num = clock.time_sig().numerator;
    if num == 0 {
        return Err(arith_error());
    }
    let beat_ticks = bar_ticks / (num as u64);
    let step = sixteenth_ticks(clock);
    let ghost whole = time_line_spec(registry@, *clock, *time);
    let ghost segs = time.segments@;
    assert(whole == match segments_events(segs, bar_ticks as int, beat_ticks as int, step as int, channel, device@, cc, segs.len() as int) {
        Err(m) => Err(CompileFailure::Message(m)),
        Ok(evs) => Ok(evs),
    });
    let mut out: Vec<MidiEvent> = Vec::new();
    assert(view_events(out@) =~= Seq::<EventView>::empty());
    let mut i: usize = 0;
    while i < time.segments.len()
        invariant
            segs == time.segments@,
            whole == time_line_spec(registry@, *clock, *time),
            i <= segs.len(),
            beat_ticks <= bar_ticks <= 0xffff * 0xff * 4,
            whole == match segments_events(segs, bar_ticks as int, beat_ticks as int, step as int, channel, device@, cc, segs.len() as int) {
                Err(m) => Err(CompileFailure::Message(m)),
                Ok(evs) => Ok(evs),
            },
            segments_events(segs, bar_ticks as int, beat_ticks as int, step as int, channel, device@, cc, i as int) == Ok::<
                Seq<EventView>,
                Seq<char>,
            >(view_events(out@)),
        decreases segs.len() - i,
    {
        let res = compile_segment(&time.segments[i], bar_ticks, beat_ticks, step, channel, device.as_str(), cc, &mut out);
        if let Err(e) = res {
            proof {
                let one = segment_events(segs[i as int], bar_ticks as int, beat_ticks as int, step as int, channel, device@, cc);
                assert(one is Err);
                assert(segments_events(segs, bar_ticks as int, beat_ticks as int, step as int, channel, device@, cc, i + 1) == one);
                lemma_segments_err(segs, bar_ticks as int, beat_ticks as int, step as int, channel, device@, cc, i + 1, segs.len() as int);
            }
            return Err(e);
        }
        i += 1;
    }
    Ok(out)
}

/// Once a prefix of the automation lines fails, all of them fail the same.
proof fn lemma_automations_err(reg: RegistryModel, clock: Clock, bars: Option<u32>, autos: Seq<CcAutomation>, i: int, n: int)
    requires
        0 <= i <= n,
        automations_spec(reg, clock, bars, autos, i) is Err,
    ensures
        automations_spec(reg, clock, bars, autos, n) == automations_spec(reg, clock, bars, autos, i),
    decreases n - i,
{
    if i < n {
        lemma_automations_err(reg, clock, bars, autos, i, n - 1);
    }
}

/// Compiles CC automation lines into control change events, line after
/// line: see `automations_spec`.
pub fn compile_cc_automations(automations: &Vec<CcAutomation>, clock: &Clock, registry: &Registry, bars: Option<u32>) -> (r: Result<
    Vec<MidiEvent>,
    EngineError,
>)
    requires
        registry.wf(),
    ensures
        match automations_spec(registry@, *clock, bars, automations@, automations@.len() as int) {
            Ok(evs) => r matches Ok(v) && view_events(v@) == evs,
            Err(f) => r matches Err(e) && reports(e, f),
        },
{
    let mut events: Vec<MidiEvent> = Vec::new();
    assert(view_events(events@) =~= Seq::<EventView>::empty());
    let mut i: usize = 0;
    while i < automations.len()
        invariant
            registry.wf(),
            i <= automations@.len(),
            automations_spec(registry@, *clock, bars, automations@, i as int) == Ok::<Seq<EventView>, CompileFailure>(
                view_events(events@),
            ),
        decreases automations@.len() - i,
    {
        let line = match &automations[i] {
            CcAutomation::Step(step) => compile_step_line(step, clock, registry, bars),
            CcAutomation::Time(time) => compile_time_line(time, clock, registry),
        };
        match line {
            Ok(more) => {
                let ghost pre = view_events(events@);
                let ghost mv = view_events(more@);
                let mut more = more;
                events.append(&mut more);
                assert(view_events(events@) =~= pre + mv);
            },
            Err(e) => {
                proof {
                    lemma_automations_err(registry@, *clock, bars, automations@, i + 1, automations@.len() as int);
                }
                return Err(e);
            },
        }
        i += 1;
    }
    Ok(events)
}

} // verus!
