//! Compiled clips carry channel messages only: notes, controller changes
//! (never System Real-Time messages), at every stage of the compiler.

use vstd::prelude::*;

use crate::arrange::{kept_events, shift_prefix};
use crate::ast::{ArpeggioDirection, ClipBody, ClipDef, CcAutomation, DrumRow, KitDef, KitInstrument, PitchedElement, PitchedLine};
use crate::cc::{
    automations_spec, cc_event, ramp_events, segment_events, segments_events, step_events, step_line_spec, time_line_spec,
};
use crate::clock::Clock;
use crate::compiler::{clip_spec, raw_clip, limited, view_clip, ClipView, CompiledClip};
use crate::control::channels_known;
use crate::player::ScenePlayer;
use crate::scene_build::{scene_built, scene_clips};
use crate::domain::MidiChannel;
use crate::drum::{drum_rows, row_steps, DrumState};
use crate::emit::{arp_events, arp_outcome, chord_events, note_pair, random_arp_events, view_events, EventView};
use crate::layers::{layer_end, layer_run, layer_spec, layers_from, lemma_layer_end, line_run, pitched_spec, PitchedAcc};
use crate::pitched::{cut_segment, element_step, repeat, run, run_from, Anchor, Ctx, Timeline};
use crate::player::all_channel_events;
use crate::registry::RegistryModel;
use crate::sorting::{lemma_sorted_positions, position_source, stable_sorted};

verus! {

/// Every event carries a channel message.
pub open spec fn voiced(evs: Seq<EventView>) -> bool {
    forall|i: int| 0 <= i < evs.len() ==> (#[trigger] evs[i]).message.has_channel()
}

proof fn lemma_voiced_add(a: Seq<EventView>, b: Seq<EventView>)
    requires
        voiced(a),
        voiced(b),
    ensures
        voiced(a + b),
{
    assert forall|i: int| 0 <= i < (a + b).len() implies (#[trigger] (a + b)[i]).message.has_channel() by {
        if i < a.len() {
            assert((a + b)[i] == a[i]);
        } else {
            assert((a + b)[i] == b[i - a.len()]);
        }
    }
}

proof fn lemma_voiced_filter(s: Seq<EventView>, p: spec_fn(EventView) -> bool)
    requires
        voiced(s),
    ensures
        voiced(s.filter(p)),
    decreases s.len(),
{
    reveal(Seq::filter);
    if s.len() > 0 {
        assert(voiced(s.drop_last()));
        lemma_voiced_filter(s.drop_last(), p);
    }
}

proof fn lemma_chord_events(channel: MidiChannel, device: Seq<char>, tick: int, gate: int, notes: Seq<u8>, velocity: u8)
    ensures
        voiced(chord_events(channel, device, tick, gate, notes, velocity)),
    decreases notes.len(),
{
    if notes.len() > 0 {
        lemma_chord_events(channel, device, tick, gate, notes.drop_last(), velocity);
        lemma_voiced_add(
            chord_events(channel, device, tick, gate, notes.drop_last(), velocity),
            note_pair(channel, device, tick, gate, notes.last(), velocity),
        );
    }
}

proof fn lemma_arp_events(channel: MidiChannel, device: Seq<char>, tick: int, step: int, gate: int, notes: Seq<u8>, velocity: u8)
    ensures
        voiced(arp_events(channel, device, tick, step, gate, notes, velocity)),
    decreases notes.len(),
{
    if notes.len() > 0 {
        lemma_arp_events(channel, device, tick, step, gate, notes.drop_last(), velocity);
        lemma_voiced_add(
            arp_events(channel, device, tick, step, gate, notes.drop_last(), velocity),
            note_pair(channel, device, tick + (notes.len() - 1) * step, gate, notes.last(), velocity),
        );
    }
}

proof fn lemma_random_arp_events(
    channel: MidiChannel,
    device: Seq<char>,
    tick: int,
    step: int,
    gate: int,
    notes: Seq<u8>,
    velocity: u8,
    count: nat,
)
    ensures
        voiced(random_arp_events(channel, device, tick, step, gate, notes, velocity, count)),
    decreases count,
{
    if count > 0 {
        lemma_random_arp_events(channel, device, tick, step, gate, notes, velocity, (count - 1) as nat);
        lemma_chord_events(channel, device, tick + (count - 1) * step, gate, notes, velocity);
        lemma_voiced_add(
            random_arp_events(channel, device, tick, step, gate, notes, velocity, (count - 1) as nat),
            chord_events(channel, device, tick + (count - 1) * step, gate, notes, velocity),
        );
    }
}

proof fn lemma_arp_outcome(
    channel: MidiChannel,
    device: Seq<char>,
    notes: Seq<u8>,
    direction: ArpeggioDirection,
    step: int,
    gate: int,
    tick: int,
    events: Seq<EventView>,
    groups: Seq<Seq<Seq<usize>>>,
    velocity: u8,
)
    requires
        voiced(events),
    ensures
        voiced(arp_outcome(channel, device, notes, direction, step, gate, tick, events, groups, velocity).0),
        arp_outcome(channel, device, notes, direction, step, gate, tick, events, groups, velocity).0.len() >= events.len(),
{
    if notes.len() > 0 {
        if direction is Random {
            lemma_random_arp_events(channel, device, tick, step, gate, notes, velocity, notes.len());
            lemma_voiced_add(events, random_arp_events(channel, device, tick, step, gate, notes, velocity, notes.len()));
        } else {
            let order = crate::arpeggio::arpeggio_sequence(notes, direction);
            lemma_arp_events(channel, device, tick, step, gate, order, velocity);
            lemma_voiced_add(events, arp_events(channel, device, tick, step, gate, order, velocity));
        }
    }
}

proof fn lemma_element_step(ctx: Ctx, st: Timeline, anchor: Anchor, e: PitchedElement)
    requires
        voiced(st.events),
        anchor.count <= st.events.len(),
    ensures
        element_step(ctx, st, anchor, e) matches Ok((s2, a2)) ==> voiced(s2.events) && anchor.count <= a2.count <= s2.events.len(),
{
    let ch = ctx.voice.channel;
    let dev = ctx.voice.device;
    assert forall|tick: int, gate: int, notes: Seq<u8>, vel: u8| #[trigger] voiced(st.events + chord_events(ch, dev, tick, gate, notes, vel)) by {
        lemma_chord_events(ch, dev, tick, gate, notes, vel);
        lemma_voiced_add(st.events, chord_events(ch, dev, tick, gate, notes, vel));
    }
    assert forall|notes: Seq<u8>, direction: ArpeggioDirection, step: int, gate: int, tick: int, vel: u8|
        #[trigger] voiced(arp_outcome(ch, dev, notes, direction, step, gate, tick, st.events, st.groups, vel).0) by {
        lemma_arp_outcome(ch, dev, notes, direction, step, gate, tick, st.events, st.groups, vel);
    }
    assert forall|notes: Seq<u8>, direction: ArpeggioDirection, step: int, gate: int, tick: int, vel: u8|
        #[trigger] arp_outcome(ch, dev, notes, direction, step, gate, tick, st.events, st.groups, vel).0.len() >= st.events.len() by {
        lemma_arp_outcome(ch, dev, notes, direction, step, gate, tick, st.events, st.groups, vel);
    }
    match e {
        PitchedElement::PipeSnap => {
            let c = anchor.count as int;
            assert(voiced(st.events.take(c)));
            assert forall|t: u64| #[trigger] voiced(cut_segment(st.events, anchor.count, t)) && cut_segment(st.events, anchor.count, t).len() >= c by {
                assert(voiced(st.events.skip(c)));
                lemma_voiced_filter(st.events.skip(c), |x: EventView| x.tick < t);
                lemma_voiced_add(st.events.take(c), st.events.skip(c).filter(|x: EventView| x.tick < t));
            }
        },
        _ => {},
    }
}

proof fn lemma_run(ctx: Ctx, elems: Seq<PitchedElement>, st: Timeline)
    requires
        voiced(st.events),
    ensures
        run(ctx, elems, st) matches Ok(s2) ==> voiced(s2.events) && s2.events.len() >= st.events.len(),
    decreases elems, 1nat, 0nat,
{
    lemma_run_from(ctx, elems, 0, st, Anchor { tick: st.tick, count: st.events.len() }, st.events.len() as int);
}

proof fn lemma_run_from(ctx: Ctx, elems: Seq<PitchedElement>, i: int, st: Timeline, anchor: Anchor, base: int)
    requires
        voiced(st.events),
        base <= anchor.count <= st.events.len(),
    ensures
        run_from(ctx, elems, i, st, anchor) matches Ok(s2) ==> voiced(s2.events) && s2.events.len() >= base,
    decreases elems, 0nat, elems.len() - i,
{
    if 0 <= i < elems.len() {
        match elems[i] {
            PitchedElement::Repetition(rep) => {
                assert(decreases_to!(elems => elems[i]));
                lemma_repeat(ctx, rep.content@, rep.count as nat, st);
                match repeat(ctx, rep.content@, rep.count as nat, st) {
                    Ok(st2) => lemma_run_from(ctx, elems, i + 1, st2, anchor, base),
                    Err(_) => {},
                }
            },
            e => {
                lemma_element_step(ctx, st, anchor, e);
                match element_step(ctx, st, anchor, e) {
                    Ok((st2, a2)) => lemma_run_from(ctx, elems, i + 1, st2, a2, base),
                    Err(_) => {},
                }
            },
        }
    }
}

proof fn lemma_repeat(ctx: Ctx, inner: Seq<PitchedElement>, k: nat, st: Timeline)
    requires
        voiced(st.events),
    ensures
        repeat(ctx, inner, k, st) matches Ok(s2) ==> voiced(s2.events) && s2.events.len() >= st.events.len(),
    decreases inner, 2nat, k,
{
    if k > 0 {
        lemma_repeat(ctx, inner, (k - 1) as nat, st);
        match repeat(ctx, inner, (k - 1) as nat, st) {
            Ok(st2) => lemma_run(ctx, inner, st2),
            Err(_) => {},
        }
    }
}

proof fn lemma_layer_run(ctx: Ctx, lines: Seq<PitchedLine>, k: int)
    ensures
        layer_run(ctx, lines, k) matches Ok(s2) ==> voiced(s2.events),
    decreases k,
{
    if k > 0 {
        lemma_layer_run(ctx, lines, k - 1);
        reveal(line_run);
        match layer_run(ctx, lines, k - 1) {
            Ok(st) => lemma_run(ctx, lines[k - 1].elements@, st),
            Err(_) => {},
        }
    }
}

proof fn lemma_layers_from(reg: RegistryModel, clock: Clock, bars: Option<u32>, lines: Seq<PitchedLine>, i: int, acc: PitchedAcc)
    requires
        voiced(acc.events),
    ensures
        layers_from(reg, clock, bars, lines, i, acc) matches Ok(a) ==> voiced(a.events),
    decreases lines.len() - i,
{
    if 0 <= i < lines.len() {
        let j = layer_end(lines, i + 1);
        lemma_layer_end(lines, i + 1);
        let layer = lines.subrange(i, j);
        match layer_spec(reg, clock, bars, layer) {
            Ok(tl) => {
                let name = layer[0].instrument@;
                lemma_layer_run(
                    Ctx { clock, voice: crate::layers::instrument_voice(reg.instruments[name]), bars },
                    layer,
                    layer.len() as int,
                );
                lemma_voiced_add(acc.events, tl.events);
                if crate::layers::groups_fit(tl.groups, acc.events.len() as int) {
                    lemma_layers_from(
                        reg,
                        clock,
                        bars,
                        lines,
                        j,
                        PitchedAcc {
                            events: acc.events + tl.events,
                            groups: acc.groups + crate::layers::shift_groups(tl.groups, acc.events.len() as int),
                            end: if tl.tick > acc.end {
                                tl.tick
                            } else {
                                acc.end
                            },
                        },
                    );
                }
            },
            Err(_) => {},
        }
    }
}

proof fn lemma_step_events(cells: Seq<Option<u8>>, tps: int, channel: MidiChannel, device: Seq<char>, cc: u8, n: int)
    ensures
        step_events(cells, tps, channel, device, cc, n) matches Ok(evs) ==> voiced(evs),
    decreases n,
{
    if n > 0 {
        lemma_step_events(cells, tps, channel, device, cc, n - 1);
    }
}

proof fn lemma_ramp_events(
    interp: crate::ast::Interpolation,
    from: u8,
    to: u8,
    from_tick: int,
    step: int,
    n: int,
    channel: MidiChannel,
    device: Seq<char>,
    cc: u8,
    k: int,
)
    ensures
        voiced(ramp_events(interp, from, to, from_tick, step, n, channel, device, cc, k)),
    decreases k,
{
    if k > 0 {
        lemma_ramp_events(interp, from, to, from_tick, step, n, channel, device, cc, k - 1);
        lemma_voiced_add(
            ramp_events(interp, from, to, from_tick, step, n, channel, device, cc, k - 1),
            seq![cc_event(from_tick + k * step, channel, device, cc, crate::cc::ramp_value(interp, from, to, k, n) as u8)],
        );
    }
}

proof fn lemma_segment_events(
    seg: crate::ast::CcTimeSegment,
    bar_ticks: int,
    beat_ticks: int,
    step: int,
    channel: MidiChannel,
    device: Seq<char>,
    cc: u8,
)
    ensures
        segment_events(seg, bar_ticks, beat_ticks, step, channel, device, cc) matches Ok(evs) ==> voiced(evs),
{
    let from_tick = crate::cc::point_tick(seg.from.bar, seg.from.beat, bar_ticks, beat_ticks);
    let start = seq![cc_event(from_tick, channel, device, cc, seg.from.value)];
    assert(voiced(start));
    match seg.to {
        Some((interp, tp)) => {
            let to_tick = crate::cc::point_tick(tp.bar, tp.beat, bar_ticks, beat_ticks);
            if step != 0 && to_tick > from_tick {
                let span = to_tick - from_tick;
                let n = if span / step > 0 {
                    span / step
                } else {
                    1
                };
                let k = if span / step > 0 {
                    n
                } else {
                    0
                };
                lemma_ramp_events(interp, seg.from.value, tp.value, from_tick, step, n, channel, device, cc, k);
                lemma_voiced_add(start, ramp_events(interp, seg.from.value, tp.value, from_tick, step, n, channel, device, cc, k));
            }
        },
        None => {},
    }
}

proof fn lemma_segments_events(
    segs: Seq<crate::ast::CcTimeSegment>,
    bar_ticks: int,
    beat_ticks: int,
    step: int,
    channel: MidiChannel,
    device: Seq<char>,
    cc: u8,
    k: int,
)
    ensures
        segments_events(segs, bar_ticks, beat_ticks, step, channel, device, cc, k) matches Ok(evs) ==> voiced(evs),
    decreases k,
{
    if k > 0 {
        lemma_segments_events(segs, bar_ticks, beat_ticks, step, channel, device, cc, k - 1);
        lemma_segment_events(segs[k - 1], bar_ticks, beat_ticks, step, channel, device, cc);
        match segments_events(segs, bar_ticks, beat_ticks, step, channel, device, cc, k - 1) {
            Ok(evs) => match segment_events(segs[k - 1], bar_ticks, beat_ticks, step, channel, device, cc) {
                Ok(more) => lemma_voiced_add(evs, more),
                Err(_) => {},
            },
            Err(_) => {},
        }
    }
}

proof fn lemma_automations(reg: RegistryModel, clock: Clock, bars: Option<u32>, autos: Seq<CcAutomation>, k: int)
    ensures
        automations_spec(reg, clock, bars, autos, k) matches Ok(evs) ==> voiced(evs),
    decreases k,
{
    if k > 0 {
        lemma_automations(reg, clock, bars, autos, k - 1);
        match automations_spec(reg, clock, bars, autos, k - 1) {
            Ok(evs) => {
                let line = match autos[k - 1] {
                    CcAutomation::Step(step) => step_line_spec(reg, clock, bars, step),
                    CcAutomation::Time(time) => time_line_spec(reg, clock, time),
                };
                match autos[k - 1] {
                    CcAutomation::Step(step) => {
                        let route = crate::cc::cc_route(reg, step.target.instrument@, step.target.param@);
                        if route is Ok {
                            let (channel, device, cc) = route->Ok_0;
                            let piped = crate::cells::pipe_fold(step.cells@, 4, step.cells@.len() as int).out;
                            match crate::cells::expand_jumps_spec(
                                piped,
                                crate::cc::steps_per_bar(clock) as nat,
                                crate::cc::step_total(clock, bars),
                            ) {
                                Ok(cells) => lemma_step_events(cells, crate::cc::sixteenth(clock), channel, device, cc, cells.len() as int),
                                Err(_) => {},
                            }
                        }
                    },
                    CcAutomation::Time(time) => {
                        let route = crate::cc::cc_route(reg, time.target.instrument@, time.target.param@);
                        if route is Ok {
                            let (channel, device, cc) = route->Ok_0;
                            let bar_ticks = crate::clock::ticks_per_bar_spec(clock.ppq_spec(), clock.time_sig_spec());
                            let num = clock.time_sig_spec().numerator;
                            if num != 0 {
                                lemma_segments_events(
                                    time.segments@,
                                    bar_ticks,
                                    bar_ticks / (num as int),
                                    crate::cc::sixteenth(clock),
                                    channel,
                                    device,
                                    cc,
                                    time.segments@.len() as int,
                                );
                            }
                        }
                    },
                }
                match line {
                    Ok(more) => lemma_voiced_add(evs, more),
                    Err(_) => {},
                }
            },
            Err(_) => {},
        }
    }
}

proof fn lemma_row_steps(st: DrumState, ki: KitInstrument, device: Seq<char>, tps: int, gate: int, row: DrumRow, k: int)
    requires
        voiced(st.events),
    ensures
        voiced(row_steps(st, ki, device, tps, gate, row, k).events),
    decreases k,
{
    if k > 0 {
        lemma_row_steps(st, ki, device, tps, gate, row, k - 1);
        let pre = row_steps(st, ki, device, tps, gate, row, k - 1);
        let note = crate::domain::note_number_spec(ki.note.name, ki.note.octave) as u8;
        assert forall|v: u8| #[trigger] voiced(pre.events + note_pair(ki.channel, device, (k - 1) * tps, gate, note, v)) by {
            lemma_voiced_add(pre.events, note_pair(ki.channel, device, (k - 1) * tps, gate, note, v));
        }
    }
}

proof fn lemma_drum_rows(kit: KitDef, tps: int, tick_us: int, rows: Seq<DrumRow>, k: int)
    ensures
        drum_rows(kit, tps, tick_us, rows, k) matches Ok(st) ==> voiced(st.events),
    decreases k,
{
    if k > 0 {
        lemma_drum_rows(kit, tps, tick_us, rows, k - 1);
        match drum_rows(kit, tps, tick_us, rows, k - 1) {
            Ok(st) => match crate::drum::first_kit_instrument(kit.instruments@, rows[k - 1].instrument@) {
                Some(ki) => lemma_row_steps(
                    st,
                    ki,
                    kit.device@,
                    tps,
                    crate::emit::gate_ticks_spec(tps, crate::drum::drum_gate_percent(ki), tick_us),
                    rows[k - 1],
                    rows[k - 1].hits@.len() as int,
                ),
                None => {},
            },
            Err(_) => {},
        }
    }
}

proof fn lemma_shift_prefix(evs: Seq<EventView>, shift: i8, k: int)
    requires
        voiced(evs),
        k <= evs.len(),
    ensures
        shift_prefix(evs, shift, k) matches Ok(out) ==> voiced(out),
    decreases k,
{
    if k > 0 {
        lemma_shift_prefix(evs, shift, k - 1);
        assert(evs[k - 1].message.has_channel());
    }
}

proof fn lemma_kept_events(evs: Seq<EventView>, max: int, k: int)
    requires
        voiced(evs),
        k <= evs.len(),
    ensures
        voiced(kept_events(evs, max, k)),
    decreases k,
{
    if k > 0 {
        lemma_kept_events(evs, max, k - 1);
        assert(evs[k - 1].message.has_channel());
    }
}

/// A compiled clip carries channel messages only: every event is a note
/// or a controller change, never a System Real-Time message.
pub proof fn law_compiled_events_have_channels(reg: RegistryModel, clock: Clock, clip: ClipDef)
    ensures
        clip_spec(reg, clock, clip) matches Ok(v) ==> voiced(v.events),
{
    match raw_clip(reg, clock, clip) {
        Ok(raw) => {
            assert(voiced(raw.events)) by {
                match clip.body {
                    ClipBody::Pitched(b) => {
                        let bars = clip.options.bars;
                        lemma_layers_from(reg, clock, bars, b.lines@, 0, PitchedAcc { events: Seq::empty(), groups: Seq::empty(), end: 0 });
                        lemma_automations(reg, clock, bars, b.cc_automations@, b.cc_automations@.len() as int);
                        match pitched_spec(reg, clock, bars, b) {
                            Ok(acc) => {
                                let pre = layers_from(
                                    reg,
                                    clock,
                                    bars,
                                    b.lines@,
                                    0,
                                    PitchedAcc { events: Seq::empty(), groups: Seq::empty(), end: 0 },
                                )->Ok_0;
                                let cc = automations_spec(reg, clock, bars, b.cc_automations@, b.cc_automations@.len() as int)->Ok_0;
                                lemma_voiced_add(pre.events, cc);
                                if clip.options.octave_shift != 0 {
                                    lemma_shift_prefix(acc.events, clip.options.octave_shift, acc.events.len() as int);
                                }
                            },
                            Err(_) => {},
                        }
                    },
                    ClipBody::Drum(b) => {
                        let bars = clip.options.bars;
                        if reg.kits.contains_key(b.kit@) && b.resolution != 0 {
                            let kit = reg.kits[b.kit@];
                            let tps = crate::clock::duration_ticks_spec(clock.ppq_spec(), b.resolution as int, false);
                            let tick_us = crate::clock::tick_duration_spec(clock.bpm_spec(), clock.ppq_spec());
                            lemma_drum_rows(kit, tps, tick_us, b.rows@, b.rows@.len() as int);
                            lemma_automations(reg, clock, bars, b.cc_automations@, b.cc_automations@.len() as int);
                            match drum_rows(kit, tps, tick_us, b.rows@, b.rows@.len() as int) {
                                Ok(st) => match automations_spec(reg, clock, bars, b.cc_automations@, b.cc_automations@.len() as int) {
                                    Ok(cc) => lemma_voiced_add(st.events, cc),
                                    Err(_) => {},
                                },
                                Err(_) => {},
                            }
                        }
                    },
                }
            }
            let lim = limited(raw, clock, clip.name@, clip.options.bars);
            assert(voiced(lim.events)) by {
                if clip.options.bars is Some {
                    let max = crate::clock::ticks_per_bar_spec(clock.ppq_spec(), clock.time_sig_spec()) * clip.options.bars->Some_0;
                    lemma_kept_events(raw.events, max, raw.events.len() as int);
                }
            }
            lemma_sorted_positions(lim.events);
            assert(voiced(stable_sorted(lim.events))) by {
                assert forall|k: int| 0 <= k < stable_sorted(lim.events).len() implies (#[trigger] stable_sorted(
                    lim.events,
                )[k]).message.has_channel() by {
                    let i = position_source(lim.events, k);
                    assert(lim.events[i].message.has_channel());
                }
            }
        },
        Err(_) => {},
    }
}

/// A clip whose view carries channel messages only carries them itself.
pub proof fn lemma_clip_channels(c: CompiledClip)
    requires
        voiced(view_clip(c).events),
    ensures
        all_channel_events(c.events@),
{
    assert forall|i: int| 0 <= i < c.events@.len() implies (#[trigger] c.events@[i]).message.has_channel() by {
        assert(view_events(c.events@)[i].message == c.events@[i].message);
    }
}

/// Each clip of a selection that compiled carries channel messages only.
proof fn lemma_scene_clips_voiced(reg: RegistryModel, clock: Clock, names: Seq<Seq<char>>, k: int)
    ensures
        scene_clips(reg, clock, names, k) matches Ok(clips) ==> forall|i: int| 0 <= i < clips.len() ==> voiced(#[trigger] clips[i].events),
    decreases k,
{
    if k > 0 {
        lemma_scene_clips_voiced(reg, clock, names, k - 1);
        let n = names[k - 1];
        if reg.clips.contains_key(n) {
            law_compiled_events_have_channels(reg, clock, reg.clips[n]);
        }
    }
}

/// The player built for a scene carries channel messages only, so the
/// channels of its clips can always be queued for All Notes Off.
pub proof fn law_built_scene_has_channels(
    reg: RegistryModel,
    clock: Clock,
    names: Seq<Seq<char>>,
    clips: Seq<ClipView>,
    muted: Set<Seq<char>>,
    p: ScenePlayer,
)
    requires
        scene_clips(reg, clock, names, names.len() as int) == Ok::<Seq<ClipView>, crate::scene_build::BuildFailure>(clips),
        scene_built(p, names, clips, muted),
    ensures
        channels_known(p),
{
    lemma_scene_clips_voiced(reg, clock, names, names.len() as int);
    lemma_scene_clips_len(reg, clock, names, names.len() as int);
    assert forall|i: int| 0 <= i < p.players_spec().len() implies crate::player::all_channel_events(
        (#[trigger] p.players_spec()[i]).1.clip_spec().events@,
    ) by {
        assert(voiced(clips[i].events));
        lemma_clip_channels(p.players_spec()[i].1.clip_spec());
    }
    assert forall|i: int| 0 <= i < p.players_spec().len() implies crate::control::player_voiced(
        #[trigger] p.players_spec()[i].1,
    ) by {
        assert(crate::player::all_channel_events(p.players_spec()[i].1.clip_spec().events@));
    }
}

/// A selection that compiled has one clip per name.
proof fn lemma_scene_clips_len(reg: RegistryModel, clock: Clock, names: Seq<Seq<char>>, k: int)
    requires
        k >= 0,
    ensures
        scene_clips(reg, clock, names, k) matches Ok(clips) ==> clips.len() == k,
    decreases k,
{
    if k > 0 {
        lemma_scene_clips_len(reg, clock, names, k - 1);
    }
}

} // verus!
