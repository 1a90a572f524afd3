//! Compilation of pitched clip bodies. Consecutive lines form a layer: a
//! layer begins at a line marked as a layer start (and at the first line)
//! and shares one running tick and one carried octave and note value; each
//! layer starts again at tick 0. The layers' events follow one another,
//! then the CC automation events.

use vstd::prelude::*;

use crate::ast::{InstrumentDef, PitchedClipBody, PitchedLine};
use crate::cc::{automations_spec, compile_cc_automations};
use crate::clock::Clock;
use crate::compiler::{reports, CompileFailure, MidiEvent, RandomChoiceGroup};
use crate::emit::{candidates_of, view_events, view_groups, CarryOverState, EventView, Voice};
use crate::error::EngineError;
use crate::pitched::{arith_error, arith_failure, compile_elements, ctx_of, run, timeline_of, Ctx, LineVoice, Timeline};
use crate::registry::{Registry, RegistryModel};

verus! {

/// The voice of an instrument: its channel and device, gates of 80 % and
/// 40 % and velocity 100 unless it sets them.
pub open spec fn instrument_voice(inst: InstrumentDef) -> Voice {
    Voice {
        channel: inst.channel,
        device: inst.device@,
        gate_normal: match inst.gate_normal {
            Some(g) => g,
            None => 80,
        },
        gate_staccato: match inst.gate_staccato {
            Some(g) => g,
            None => 40,
        },
        velocity: match inst.velocity_normal {
            Some(v) => v,
            None => 100,
        },
    }
}

/// The state a layer starts from: tick 0, octave 4, quarter notes.
pub open spec fn layer_start_state() -> Timeline {
    Timeline { tick: 0, carry: CarryOverState { octave: 4, duration: 4 }, events: Seq::empty(), groups: Seq::empty() }
}

/// One line of a layer compiled from state `st`.
#[verifier::opaque]
pub open spec fn line_run(ctx: Ctx, elems: Seq<crate::ast::PitchedElement>, st: Timeline) -> Result<Timeline, Seq<char>> {
    run(ctx, elems, st)
}

/// The first `k` lines of a layer, one after another on its timeline.
pub open spec fn layer_run(ctx: Ctx, lines: Seq<PitchedLine>, k: int) -> Result<Timeline, Seq<char>>
    decreases k,
{
    if k <= 0 {
        Ok(layer_start_state())
    } else {
        match layer_run(ctx, lines, k - 1) {
            Err(m) => Err(m),
            Ok(st) => line_run(ctx, lines[k - 1].elements@, st),
        }
    }
}

/// A compiled layer, played by the instrument of its first line.
pub open spec fn layer_spec(reg: RegistryModel, clock: Clock, bars: Option<u32>, lines: Seq<PitchedLine>) -> Result<Timeline, CompileFailure> {
    let name = lines[0].instrument@;
    if !reg.instruments.contains_key(name) {
        Err(CompileFailure::UnknownInstrument(name))
    } else {
        match layer_run(Ctx { clock, voice: instrument_voice(reg.instruments[name]), bars }, lines, lines.len() as int) {
            Err(m) => Err(CompileFailure::Message(m)),
            Ok(st) => Ok(st),
        }
    }
}

/// Where the layer that continues at line `j` ends: the next layer start
/// at or after `j`, or the end.
pub open spec fn layer_end(lines: Seq<PitchedLine>, j: int) -> int
    decreases lines.len() - j,
{
    if j >= lines.len() {
        lines.len() as int
    } else if lines[j].is_layer_start {
        j
    } else {
        layer_end(lines, j + 1)
    }
}

/// A layer ends at or after where it is looked for, and within the lines.
pub proof fn lemma_layer_end(lines: Seq<PitchedLine>, j: int)
    requires
        j <= lines.len(),
    ensures
        j <= layer_end(lines, j) <= lines.len(),
    decreases lines.len() - j,
{
    if j < lines.len() && !lines[j].is_layer_start {
        lemma_layer_end(lines, j + 1);
    }
}

/// The events, random-choice groups and musical end of the layers so far.
pub struct PitchedAcc {
    pub events: Seq<EventView>,
    pub groups: Seq<Seq<Seq<usize>>>,
    pub end: u64,
}

/// Every index of a group stays within `usize` when moved by `off`.
pub open spec fn group_fits(g: Seq<Seq<usize>>, off: int) -> bool {
    forall|c: int, j: int| 0 <= c < g.len() && 0 <= j < g[c].len() ==> #[trigger] g[c][j] + off <= usize::MAX
}

/// Every index of the groups stays within `usize` when moved by `off`.
pub open spec fn groups_fit(groups: Seq<Seq<Seq<usize>>>, off: int) -> bool {
    forall|g: int| 0 <= g < groups.len() ==> #[trigger] group_fits(groups[g], off)
}

/// A candidate with every index moved by `off`.
pub open spec fn shift_candidate_spec(c: Seq<usize>, off: int) -> Seq<usize> {
    c.map_values(|x: usize| (x + off) as usize)
}

/// A group with every index moved by `off`.
pub open spec fn shift_group_spec(g: Seq<Seq<usize>>, off: int) -> Seq<Seq<usize>> {
    g.map_values(|c: Seq<usize>| shift_candidate_spec(c, off))
}

/// The groups with every index moved by `off`.
pub open spec fn shift_groups(groups: Seq<Seq<Seq<usize>>>, off: int) -> Seq<Seq<Seq<usize>>> {
    groups.map_values(|g: Seq<Seq<usize>>| shift_group_spec(g, off))
}


/// Compiles the layers from line `i` on onto `acc`: each layer's events
/// follow the earlier ones, its group indices move by the number of
/// earlier events, and the end is the latest layer end.
pub open spec fn layers_from(reg: RegistryModel, clock: Clock, bars: Option<u32>, lines: Seq<PitchedLine>, i: int, acc: PitchedAcc) -> Result<
    PitchedAcc,
    CompileFailure,
>
    decreases lines.len() - i,
{
    if i < 0 || i >= lines.len() {
        Ok(acc)
    } else {
        let j = layer_end(lines, i + 1);
        proof {
            lemma_layer_end(lines, i + 1);
        }
        match layer_spec(reg, clock, bars, lines.subrange(i, j)) {
            Err(f) => Err(f),
            Ok(tl) => if !groups_fit(tl.groups, acc.events.len() as int) {
                Err(CompileFailure::Message(arith_failure()))
            } else {
                layers_from(
                    reg,
                    clock,
                    bars,
                    lines,
                    j,
                    PitchedAcc {
                        events: acc.events + tl.events,
                        groups: acc.groups + shift_groups(tl.groups, acc.events.len() as int),
                        end: if tl.tick > acc.end {
                            tl.tick
                        } else {
                            acc.end
                        },
                    },
                )
            },
        }
    }
}

/// A compiled pitched body: the layers' events followed by the CC
/// automation events, the random-choice groups, and the musical end.
pub open spec fn pitched_spec(reg: RegistryModel, clock: Clock, bars: Option<u32>, body: PitchedClipBody) -> Result<PitchedAcc, CompileFailure> {
    match layers_from(reg, clock, bars, body.lines@, 0, PitchedAcc { events: Seq::empty(), groups: Seq::empty(), end: 0 }) {
        Err(f) => Err(f),
        Ok(acc) => match automations_spec(reg, clock, bars, body.cc_automations@, body.cc_automations@.len() as int) {
            Err(f) => Err(f),
            Ok(cc) => Ok(PitchedAcc { events: acc.events + cc, groups: acc.groups, end: acc.end }),
        },
    }
}

/// Once a prefix of a layer's lines fails, the layer fails the same.
proof fn lemma_layer_run_err(ctx: Ctx, lines: Seq<PitchedLine>, i: int, n: int)
    requires
        0 <= i <= n,
        layer_run(ctx, lines, i) is Err,
    ensures
        layer_run(ctx, lines, n) == layer_run(ctx, lines, i),
    decreases n - i,
{
    if i < n {
        lemma_layer_run_err(ctx, lines, i, n - 1);
    }
}

/// One more line of a layer runs on from the state the earlier ones left.
proof fn lemma_layer_step(ctx: Ctx, lines: Seq<PitchedLine>, i: int, st: Timeline)
    requires
        0 <= i < lines.len(),
        layer_run(ctx, lines, i) == Ok::<Timeline, Seq<char>>(st),
    ensures
        layer_run(ctx, lines, i + 1) == run(ctx, lines[i].elements@, st),
{
    reveal(line_run);
}

/// Compiles the layer of lines `start..end`.
fn compile_pitched_layer(lines: &Vec<PitchedLine>, start: usize, end: usize, clock: &Clock, registry: &Registry, bars: Option<u32>) -> (r: Result<
    (Vec<MidiEvent>, Vec<RandomChoiceGroup>, u64),
    EngineError,
>)
    requires
        start < end <= lines@.len(),
        registry.wf(),
    ensures
        match layer_spec(registry@, *clock, bars, lines@.subrange(start as int, end as int)) {
            Ok(st) => r matches Ok((evs, groups, tick)) && view_events(evs@) == st.events && view_groups(groups@) == st.groups
                && tick == st.tick,
            Err(f) => r matches Err(e) && reports(e, f),
        },
{
    let ghost layer = lines@.subrange(start as int, end as int);
    let inst = match registry.get_instrument(lines[start].instrument.as_str()) {
        Some(i) => i,
        None => return Err(EngineError::UnknownInstrument(lines[start].instrument.clone())),
    };
    let voice = LineVoice {
        channel: inst.channel,
        device: inst.device.clone(),
        gate_normal: match inst.gate_normal {
            Some(g) => g,
            None => 80,
        },
        gate_staccato: match inst.gate_staccato {
            Some(g) => g,
            None => 40,
        },
        velocity: match inst.velocity_normal {
            Some(v) => v,
            None => 100,
        },
    };
    let ghost ctx = ctx_of(*clock, voice, bars);
    assert(ctx == Ctx { clock: *clock, voice: instrument_voice(registry@.instruments[layer[0].instrument@]), bars });
    let mut events: Vec<MidiEvent> = Vec::new();
    let mut groups: Vec<RandomChoiceGroup> = Vec::new();
    let mut tick: u64 = 0;
    let mut carry = CarryOverState::new();
    assert(timeline_of(tick, carry, events@, groups@) == layer_start_state()) by {
        assert(view_events(events@) =~= Seq::<EventView>::empty());
        assert(view_groups(groups@) =~= Seq::<Seq<Seq<usize>>>::empty());
    }
    let mut k: usize = start;
    while k < end
        invariant
            start <= k <= end <= lines@.len(),
            layer == lines@.subrange(start as int, end as int),
            ctx == ctx_of(*clock, voice, bars),
            registry@.instruments.contains_key(layer[0].instrument@),
            ctx == (Ctx { clock: *clock, voice: instrument_voice(registry@.instruments[layer[0].instrument@]), bars }),
            layer_run(ctx, layer, k - start) == Ok::<Timeline, Seq<char>>(timeline_of(tick, carry, events@, groups@)),
        decreases end - k,
    {
        let ghost st = timeline_of(tick, carry, events@, groups@);
        proof {
            assert(layer[k - start] == lines@[k as int]);
            lemma_layer_step(ctx, layer, k - start, st);
        }
        let res = compile_elements(&lines[k].elements, clock, &voice, bars, &mut tick, &mut carry, &mut events, &mut groups);
        if let Err(e) = res {
            proof {
                lemma_layer_run_err(ctx, layer, k + 1 - start, layer.len() as int);
            }
            return Err(e);
        }
        k += 1;
    }
    Ok((events, groups, tick))
}

/// The candidate with every index moved by `off`, if every index fits.
fn shift_candidate(c: &Vec<usize>, off: usize) -> (r: Option<Vec<usize>>)
    ensures
        match r {
            Some(v) => (forall|j: int| 0 <= j < c@.len() ==> #[trigger] c@[j] + off <= usize::MAX) && v@ == shift_candidate_spec(
                c@,
                off as int,
            ),
            None => exists|j: int| 0 <= j < c@.len() && #[trigger] c@[j] + off > usize::MAX,
        },
{
    let mut out: Vec<usize> = Vec::new();
    let mut j: usize = 0;
    while j < c.len()
        invariant
            j <= c@.len(),
            forall|t: int| 0 <= t < j ==> #[trigger] c@[t] + off <= usize::MAX,
            out@ == shift_candidate_spec(c@.take(j as int), off as int),
        decreases c@.len() - j,
    {
        if c[j] > usize::MAX - off {
            return None;
        }
        out.push(c[j] + off);
        assert(shift_candidate_spec(c@.take(j + 1), off as int) =~= shift_candidate_spec(c@.take(j as int), off as int).push(
            (c@[j as int] + off) as usize,
        ));
        j += 1;
    }
    assert(c@.take(j as int) =~= c@);
    Some(out)
}

/// The group with every index moved by `off`, if every index fits.
fn shift_group(g: &RandomChoiceGroup, off: usize) -> (r: Option<RandomChoiceGroup>)
    ensures
        match r {
            Some(v) => group_fits(candidates_of(*g), off as int) && candidates_of(v) == shift_group_spec(
                candidates_of(*g),
                off as int,
            ),
            None => !group_fits(candidates_of(*g), off as int),
        },
{
    let mut out: Vec<Vec<usize>> = Vec::new();
    let mut k: usize = 0;
    let ghost src = candidates_of(*g);
    while k < g.candidates.len()
        invariant
            k <= g.candidates@.len(),
            src == candidates_of(*g),
            forall|c: int, j: int| 0 <= c < k && 0 <= j < src[c].len() ==> #[trigger] src[c][j] + off <= usize::MAX,
            out@.map_values(|c: Vec<usize>| c@) == shift_group_spec(src.take(k as int), off as int),
        decreases g.candidates@.len() - k,
    {
        assert(src[k as int] == g.candidates@[k as int]@);
        match shift_candidate(&g.candidates[k], off) {
            Some(v) => {
                let ghost pre = out@;
                out.push(v);
                assert(out@.map_values(|c: Vec<usize>| c@) =~= pre.map_values(|c: Vec<usize>| c@).push(v@));
                assert(shift_group_spec(src.take(k + 1), off as int) =~= shift_group_spec(src.take(k as int), off as int).push(
                    shift_candidate_spec(src[k as int], off as int),
                ));
            },
            None => {
                proof {
                    let j = choose|j: int| 0 <= j < src[k as int].len() && #[trigger] src[k as int][j] + off > usize::MAX;
                    assert(src[k as int][j] + off > usize::MAX);
                }
                return None;
            },
        }
        k += 1;
    }
    assert(src.take(k as int) =~= src);
    Some(RandomChoiceGroup { candidates: out })
}

/// Appends the groups with every index moved by `off`, if every index
/// fits; otherwise reports `false`.
fn append_shifted(groups: &mut Vec<RandomChoiceGroup>, more: &Vec<RandomChoiceGroup>, off: usize) -> (ok: bool)
    ensures
        ok == groups_fit(view_groups(more@), off as int),
        ok ==> view_groups(final(groups)@) == view_groups(old(groups)@) + shift_groups(view_groups(more@), off as int),
{
    let ghost tl_groups = view_groups(more@);
    let ghost pre_groups = view_groups(groups@);
    let mut k: usize = 0;
    assert(shift_groups(tl_groups.take(0), off as int) =~= Seq::<Seq<Seq<usize>>>::empty());
    assert(pre_groups + Seq::<Seq<Seq<usize>>>::empty() =~= pre_groups);
    while k < more.len()
        invariant
            k <= more@.len(),
            tl_groups == view_groups(more@),
            pre_groups == view_groups(old(groups)@),
            forall|g: int| 0 <= g < k ==> #[trigger] group_fits(tl_groups[g], off as int),
            view_groups(groups@) == pre_groups + shift_groups(tl_groups.take(k as int), off as int),
        decreases more@.len() - k,
    {
        assert(tl_groups[k as int] == candidates_of(more@[k as int]));
        match shift_group(&more[k], off) {
            Some(g) => {
                let ghost before = groups@;
                groups.push(g);
                assert(view_groups(groups@) =~= view_groups(before).push(candidates_of(g)));
                assert(shift_groups(tl_groups.take(k + 1), off as int) =~= shift_groups(tl_groups.take(k as int), off as int).push(
                    shift_group_spec(tl_groups[k as int], off as int),
                ));
            },
            None => {
                assert(!group_fits(tl_groups[k as int], off as int));
                return false;
            },
        }
        k += 1;
    }
    assert(tl_groups.take(k as int) =~= tl_groups);
    true
}

/// Once a run of layers fails, it fails however it continues.
proof fn lemma_layers_from_split(reg: RegistryModel, clock: Clock, bars: Option<u32>, lines: Seq<PitchedLine>, i: int, acc: PitchedAcc)
    requires
        0 <= i < lines.len(),
    ensures
        ({
            let j = layer_end(lines, i + 1);
            layers_from(reg, clock, bars, lines, i, acc) == match layer_spec(reg, clock, bars, lines.subrange(i, j)) {
                Err(f) => Err(f),
                Ok(tl) => if !groups_fit(tl.groups, acc.events.len() as int) {
                    Err(CompileFailure::Message(arith_failure()))
                } else {
                    layers_from(
                        reg,
                        clock,
                        bars,
                        lines,
                        j,
                        PitchedAcc {
                            events: acc.events + tl.events,
                            groups: acc.groups + shift_groups(tl.groups, acc.events.len() as int),
                            end: if tl.tick > acc.end {
                                tl.tick
                            } else {
                                acc.end
                            },
                        },
                    )
                },
            }
        }),
{
}

/// Compiles a pitched body: its layers, then its CC automation lines.
pub fn compile_pitched(body: &PitchedClipBody, clock: &Clock, registry: &Registry, bars: Option<u32>) -> (r: Result<
    (Vec<MidiEvent>, Vec<RandomChoiceGroup>, u64),
    EngineError,
>)
    requires
        registry.wf(),
    ensures
        match pitched_spec(registry@, *clock, bars, *body) {
            Ok(acc) => r matches Ok((evs, groups, end)) && view_events(evs@) == acc.events && view_groups(groups@) == acc.groups
                && end == acc.end,
            Err(f) => r matches Err(e) && reports(e, f),
        },
{
    let ghost lines = body.lines@;
    let ghost whole = layers_from(registry@, *clock, bars, lines, 0, PitchedAcc { events: Seq::empty(), groups: Seq::empty(), end: 0 });
    let mut events: Vec<MidiEvent> = Vec::new();
    let mut groups: Vec<RandomChoiceGroup> = Vec::new();
    let mut end: u64 = 0;
    assert(view_events(events@) =~= Seq::<EventView>::empty());
    assert(view_groups(groups@) =~= Seq::<Seq<Seq<usize>>>::empty());
    let mut i: usize = 0;
    while i < body.lines.len()
        invariant
            lines == body.lines@,
            registry.wf(),
            i <= lines.len(),
            whole == layers_from(registry@, *clock, bars, lines, 0, PitchedAcc { events: Seq::empty(), groups: Seq::empty(), end: 0 }),
            whole == layers_from(
                registry@,
                *clock,
                bars,
                lines,
                i as int,
                PitchedAcc { events: view_events(events@), groups: view_groups(groups@), end },
            ),
        decreases lines.len() - i,
    {
        let mut j: usize = i + 1;
        proof {
            lemma_layer_end(lines, i + 1);
        }
        while j < body.lines.len() && !body.lines[j].is_layer_start
            invariant
                lines == body.lines@,
                i < j <= lines.len(),
                layer_end(lines, j as int) == layer_end(lines, i + 1),
            decreases lines.len() - j,
        {
            j += 1;
        }
        assert(layer_end(lines, j as int) == j);
        let ghost acc = PitchedAcc { events: view_events(events@), groups: view_groups(groups@), end };
        proof {
            lemma_layers_from_split(registry@, *clock, bars, lines, i as int, acc);
        }
        let (mut layer_events, layer_groups, layer_end_tick) = match compile_pitched_layer(&body.lines, i, j, clock, registry, bars) {
            Ok(x) => x,
            Err(e) => return Err(e),
        };
        let off = events.len();
        if !append_shifted(&mut groups, &layer_groups, off) {
            return Err(arith_error());
        }
        let ghost ev_pre = view_events(events@);
        let ghost ev_more = view_events(layer_events@);
        events.append(&mut layer_events);
        assert(view_events(events@) =~= ev_pre + ev_more);
        if layer_end_tick > end {
            end = layer_end_tick;
        }
        i = j;
    }
    let mut cc = match compile_cc_automations(&body.cc_automations, clock, registry, bars) {
        Ok(c) => c,
        Err(e) => return Err(e),
    };
    let ghost pre = view_events(events@);
    let ghost more = view_events(cc@);
    events.append(&mut cc);
    assert(view_events(events@) =~= pre + more);
    Ok((events, groups, end))
}

} // verus!
