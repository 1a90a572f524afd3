//! Compilation of the elements of a pitched line into note events: notes,
//! rests, chords and arpeggios advance the tick; `>n` jumps to a bar;
//! `|` snaps to a beat boundary; repetitions replay their elements.
//!
//! The compilation is specified as a run over the elements (`run`); a
//! computation that leaves the tick range or divides by a zero length
//! fails with `arith_failure`.

use vstd::prelude::*;

use crate::ast::{Arpeggio, ArpeggioDirection, Articulation, NoteEvent, PitchedElement};
use crate::clock::{duration_ticks_spec, tick_duration_spec, ticks_per_bar_spec, ticks_per_beat_spec, Clock};
use crate::compiler::{MidiEvent, RandomChoiceGroup};
use crate::domain::{chord_notes, chord_notes_spec, note_number, note_number_spec, MidiChannel};
use crate::emit::{
    apply_min_gate_off, arp_outcome, arp_step_count, chord_events, emit_arpeggio_cycle, emit_chord,
    gate_percent_spec, gate_ticks_spec, resolve_gate_percent, view_events, view_groups,
    CarryOverState, EventView, Voice,
};
use crate::error::EngineError;
use crate::domain::NoteName;
use crate::text::{decimal, owned, u64_to_string};

verus! {

/// The message of a compilation whose ticks leave the `u64` range or that
/// divides by a zero length.
pub open spec fn arith_failure() -> Seq<char> {
    "tick の計算が範囲を超えました"@
}

/// The error of a failed tick computation.
pub fn arith_error() -> (r: EngineError)
    ensures
        r matches EngineError::CompileError(s) && s@ == arith_failure(),
{
    EngineError::CompileError(owned("tick の計算が範囲を超えました"))
}

/// The message for a bar jump beyond the clip's bars.
pub open spec fn bar_jump_failure(bar: u32, bars: u32) -> Seq<char> {
    ">"@ + decimal(bar as nat) + "はbars="@ + decimal(bars as nat) + "の範囲外です"@
}

/// What a line compiles with.
pub struct Ctx {
    pub clock: Clock,
    pub voice: Voice,
    pub bars: Option<u32>,
}

/// The compilation state: tick, carried values, events and random-choice
/// groups emitted so far.
pub struct Timeline {
    pub tick: u64,
    pub carry: CarryOverState,
    pub events: Seq<EventView>,
    pub groups: Seq<Seq<Seq<usize>>>,
}

/// Where the current `|` segment began: its tick and the number of events
/// emitted before it.
pub struct Anchor {
    pub tick: u64,
    pub count: nat,
}

/// Ticks of a note value under the clock.
pub open spec fn dur_ticks(ctx: Ctx, duration: u16, dotted: bool) -> int {
    duration_ticks_spec(ctx.clock.ppq_spec(), duration as int, dotted)
}

/// Gate ticks of a note of `note_ticks` with articulation `art`.
pub open spec fn gate_of(ctx: Ctx, note_ticks: int, art: Articulation) -> int {
    gate_ticks_spec(
        note_ticks,
        gate_percent_spec(art, ctx.voice.gate_normal, ctx.voice.gate_staccato),
        tick_duration_spec(ctx.clock.bpm_spec(), ctx.clock.ppq_spec()),
    )
}

/// The velocity of a note: its own, else the voice's.
pub open spec fn velocity_of(ctx: Ctx, v: Option<u8>) -> u8 {
    match v {
        Some(x) => x,
        None => ctx.voice.velocity,
    }
}

/// A single note: the carry takes its octave and value; it sounds for the
/// gate and the tick moves on by its length.
pub open spec fn single_step(
    ctx: Ctx,
    st: Timeline,
    name: crate::domain::NoteName,
    octave: Option<u8>,
    duration: Option<u16>,
    dotted: bool,
    art: Articulation,
    vel: Option<u8>,
) -> Result<Timeline, Seq<char>> {
    let carry = st.carry.with(octave, duration);
    if carry.duration == 0 {
        Err(arith_failure())
    } else {
        let nt = dur_ticks(ctx, carry.duration, dotted);
        if st.tick + nt > u64::MAX {
            Err(arith_failure())
        } else {
            Ok(
                Timeline {
                    tick: (st.tick + nt) as u64,
                    carry,
                    events: st.events + chord_events(
                        ctx.voice.channel,
                        ctx.voice.device,
                        st.tick as int,
                        gate_of(ctx, nt, art),
                        seq![note_number_spec(name, carry.octave) as u8],
                        velocity_of(ctx, vel),
                    ),
                    groups: st.groups,
                },
            )
        }
    }
}

/// A rest: the carry takes its value and the tick moves on by it.
pub open spec fn rest_step(ctx: Ctx, st: Timeline, duration: Option<u16>, dotted: bool) -> Result<Timeline, Seq<char>> {
    let carry = st.carry.with(None, duration);
    if carry.duration == 0 {
        Err(arith_failure())
    } else {
        let nt = dur_ticks(ctx, carry.duration, dotted);
        if st.tick + nt > u64::MAX {
            Err(arith_failure())
        } else {
            Ok(Timeline { tick: (st.tick + nt) as u64, carry, ..st })
        }
    }
}

/// Chord tones at the current tick: sounded together for `d` (no
/// arpeggio), or as one arpeggio cycle whose steps last `d`. Gives the new
/// tick, events and groups.
pub open spec fn chord_core(
    ctx: Ctx,
    tick: u64,
    events: Seq<EventView>,
    groups: Seq<Seq<Seq<usize>>>,
    d: u16,
    notes: Seq<u8>,
    dotted: bool,
    arpeggio: Option<crate::ast::Arpeggio>,
    art: Articulation,
    vel: Option<u8>,
) -> Result<(u64, Seq<EventView>, Seq<Seq<Seq<usize>>>), Seq<char>> {
    if d == 0 {
        Err(arith_failure())
    } else {
        let len = dur_ticks(ctx, d, dotted);
        match arpeggio {
            Some(a) => {
                if tick + arp_step_count(notes.len(), a.direction) * len > u64::MAX {
                    Err(arith_failure())
                } else {
                    let (evs, grs, t) = arp_outcome(
                        ctx.voice.channel,
                        ctx.voice.device,
                        notes,
                        a.direction,
                        len,
                        gate_of(ctx, len, art),
                        tick as int,
                        events,
                        groups,
                        velocity_of(ctx, vel),
                    );
                    Ok((t as u64, evs, grs))
                }
            },
            None => {
                if tick + len > u64::MAX {
                    Err(arith_failure())
                } else {
                    Ok(
                        (
                            (tick + len) as u64,
                            events + chord_events(
                                ctx.voice.channel,
                                ctx.voice.device,
                                tick as int,
                                gate_of(ctx, len, art),
                                notes,
                                velocity_of(ctx, vel),
                            ),
                            groups,
                        ),
                    )
                }
            },
        }
    }
}

/// A chord element: the carry becomes `carry` (or `step_carry` for an
/// arpeggio, whose value gives the step length) and the chord sounds.
pub open spec fn chord_step(
    ctx: Ctx,
    st: Timeline,
    carry: CarryOverState,
    step_carry: CarryOverState,
    notes: Seq<u8>,
    dotted: bool,
    arpeggio: Option<crate::ast::Arpeggio>,
    art: Articulation,
    vel: Option<u8>,
) -> Result<Timeline, Seq<char>> {
    let c = if arpeggio is Some {
        step_carry
    } else {
        carry
    };
    match chord_core(ctx, st.tick, st.events, st.groups, c.duration, notes, dotted, arpeggio, art, vel) {
        Ok((t, evs, grs)) => Ok(Timeline { tick: t, carry: c, events: evs, groups: grs }),
        Err(m) => Err(m),
    }
}

/// The notes of a bracket chord: each tone in its own octave, else the
/// carried one.
pub open spec fn bracket_notes(tones: Seq<(crate::domain::NoteName, Option<u8>)>, octave: u8) -> Seq<u8> {
    tones.map_values(
        |t: (crate::domain::NoteName, Option<u8>)|
            note_number_spec(
                t.0,
                match t.1 {
                    Some(o) => o,
                    None => octave,
                },
            ) as u8,
    )
}

/// `>bar`: jump to the head of the bar; a bar beyond the clip's bars is
/// an error.
pub open spec fn bar_jump_step(ctx: Ctx, st: Timeline, bar: u32) -> Result<(Timeline, Anchor), Seq<char>> {
    if ctx.bars matches Some(max) && bar > max {
        Err(bar_jump_failure(bar, ctx.bars->Some_0))
    } else if bar == 0 {
        Err(arith_failure())
    } else {
        let t = ((bar - 1) * ticks_per_bar_spec(ctx.clock.ppq_spec(), ctx.clock.time_sig_spec())) as u64;
        Ok((Timeline { tick: t, ..st }, Anchor { tick: t, count: st.events.len() }))
    }
}

/// The events of a segment cut back to `target`: events before the
/// segment stay; those of the segment stay only if they start before the
/// target.
pub open spec fn cut_segment(events: Seq<EventView>, count: nat, target: u64) -> Seq<EventView> {
    events.take(count as int) + events.skip(count as int).filter(|e: EventView| e.tick < target)
}

/// `|`: a segment that is at most one beat long is padded to one beat;
/// a longer one is cut back to its last whole beat, dropping the events
/// of the segment that start at or after the cut.
pub open spec fn pipe_step(ctx: Ctx, st: Timeline, anchor: Anchor) -> Result<(Timeline, Anchor), Seq<char>> {
    let tpb = ticks_per_beat_spec(ctx.clock.ppq_spec(), ctx.clock.time_sig_spec());
    let since = if st.tick > anchor.tick {
        st.tick - anchor.tick
    } else {
        0
    };
    if since <= tpb {
        if anchor.tick + tpb > u64::MAX {
            Err(arith_failure())
        } else {
            let t = (anchor.tick + tpb) as u64;
            Ok((Timeline { tick: t, ..st }, Anchor { tick: t, count: st.events.len() }))
        }
    } else if tpb == 0 {
        Err(arith_failure())
    } else {
        let t = (anchor.tick + (since / tpb) * tpb) as u64;
        let evs = cut_segment(st.events, anchor.count, t);
        Ok((Timeline { tick: t, events: evs, ..st }, Anchor { tick: t, count: evs.len() }))
    }
}

/// A note, rest or chord name.
pub open spec fn note_step(ctx: Ctx, st: Timeline, n: NoteEvent, art: Articulation, vel: Option<u8>) -> Result<Timeline, Seq<char>> {
    match n {
        NoteEvent::Single { name, octave, duration, dotted } => single_step(ctx, st, name, octave, duration, dotted, art, vel),
        NoteEvent::Rest { duration, dotted } => rest_step(ctx, st, duration, dotted),
        NoteEvent::ChordName { root, suffix, octave, duration, dotted, arpeggio } => {
            let carry = st.carry.with(octave, duration);
            let step_carry = match arpeggio {
                Some(a) => match a.resolution {
                    Some(r) => carry.with(None, Some(r)),
                    None => carry,
                },
                None => carry,
            };
            chord_step(ctx, st, carry, step_carry, chord_notes_spec(root, carry.octave, suffix), dotted, arpeggio, art, vel)
        },
    }
}

/// A bracket chord `[c:4 e g]`: tones take their own octave or the
/// carried one; the value is carried (an arpeggio's resolution replaces
/// it).
pub open spec fn bracket_step(
    ctx: Ctx,
    st: Timeline,
    tones: Seq<(crate::domain::NoteName, Option<u8>)>,
    duration: Option<u16>,
    dotted: bool,
    art: Articulation,
    arpeggio: Option<Arpeggio>,
    vel: Option<u8>,
) -> Result<Timeline, Seq<char>> {
    let carry = st.carry.with(None, duration);
    let step_carry = match arpeggio {
        Some(a) => match a.resolution {
            Some(r) => st.carry.with(None, Some(r)),
            None => carry,
        },
        None => carry,
    };
    chord_step(ctx, st, carry, step_carry, bracket_notes(tones, st.carry.octave), dotted, arpeggio, art, vel)
}

/// One element other than a repetition.
pub open spec fn element_step(ctx: Ctx, st: Timeline, anchor: Anchor, e: PitchedElement) -> Result<(Timeline, Anchor), Seq<char>> {
    match e {
        PitchedElement::Note(n, art, vel) => match note_step(ctx, st, n, art, vel) {
            Ok(t) => Ok((t, anchor)),
            Err(m) => Err(m),
        },
        PitchedElement::ChordBracket { notes, duration, dotted, articulation, arpeggio, velocity } => match bracket_step(
            ctx,
            st,
            notes@,
            duration,
            dotted,
            articulation,
            arpeggio,
            velocity,
        ) {
            Ok(t) => Ok((t, anchor)),
            Err(m) => Err(m),
        },
        PitchedElement::BarJump(j) => bar_jump_step(ctx, st, j.bar_number),
        PitchedElement::PipeSnap => pipe_step(ctx, st, anchor),
        PitchedElement::Repetition(_) => Ok((st, anchor)),
    }
}

/// Compiles `elems` from state `st`; the first `|` segment begins at the
/// state's tick.
pub open spec fn run(ctx: Ctx, elems: Seq<PitchedElement>, st: Timeline) -> Result<Timeline, Seq<char>>
    decreases elems, 1nat, 0nat,
{
    run_from(ctx, elems, 0, st, Anchor { tick: st.tick, count: st.events.len() })
}

/// Compiles `elems` from position `i` on.
pub open spec fn run_from(ctx: Ctx, elems: Seq<PitchedElement>, i: int, st: Timeline, anchor: Anchor) -> Result<Timeline, Seq<char>>
    decreases elems, 0nat, elems.len() - i,
{
    if i < 0 || i >= elems.len() {
        Ok(st)
    } else {
        match elems[i] {
            PitchedElement::Repetition(rep) => {
                proof {
                    assert(decreases_to!(elems => elems[i]));
                }
                match repeat(ctx, rep.content@, rep.count as nat, st) {
                    Ok(st2) => run_from(ctx, elems, i + 1, st2, anchor),
                    Err(m) => Err(m),
                }
            },
            e => match element_step(ctx, st, anchor, e) {
                Ok((st2, a2)) => run_from(ctx, elems, i + 1, st2, a2),
                Err(m) => Err(m),
            },
        }
    }
}

/// Compiles `inner` `k` times in a row.
pub open spec fn repeat(ctx: Ctx, inner: Seq<PitchedElement>, k: nat, st: Timeline) -> Result<Timeline, Seq<char>>
    decreases inner, 2nat, k,
{
    if k == 0 {
        Ok(st)
    } else {
        match repeat(ctx, inner, (k - 1) as nat, st) {
            Ok(st2) => run(ctx, inner, st2),
            Err(m) => Err(m),
        }
    }
}

/// Who plays a line: channel, device, gate percentages and default
/// velocity.
pub struct LineVoice {
    pub channel: MidiChannel,
    pub device: String,
    pub gate_normal: u8,
    pub gate_staccato: u8,
    pub velocity: u8,
}

/// A line's voice as values.
pub open spec fn voice_of(v: LineVoice) -> Voice {
    Voice {
        channel: v.channel,
        device: v.device@,
        gate_normal: v.gate_normal,
        gate_staccato: v.gate_staccato,
        velocity: v.velocity,
    }
}

/// The compilation context as values.
pub open spec fn ctx_of(clock: Clock, voice: LineVoice, bars: Option<u32>) -> Ctx {
    Ctx { clock, voice: voice_of(voice), bars }
}

/// The compilation state as values.
pub open spec fn timeline_of(tick: u64, carry: CarryOverState, events: Seq<MidiEvent>, groups: Seq<RandomChoiceGroup>) -> Timeline {
    Timeline { tick, carry, events: view_events(events), groups: view_groups(groups) }
}

/// Number of steps of an arpeggio cycle over `n` notes.
fn arp_count(n: usize, direction: ArpeggioDirection) -> (r: u128)
    ensures
        r == arp_step_count(n as nat, direction),
{
    if n >= 2 && direction == ArpeggioDirection::UpDown {
        2 * (n as u128) - 2
    } else {
        n as u128
    }
}

/// Sounds chord tones as `chord_core` describes.
fn sound_chord(
    clock: &Clock,
    voice: &LineVoice,
    notes: &Vec<u8>,
    d: u16,
    dotted: bool,
    arpeggio: Option<Arpeggio>,
    art: &Articulation,
    vel: Option<u8>,
    current_tick: &mut u64,
    events: &mut Vec<MidiEvent>,
    groups: &mut Vec<RandomChoiceGroup>,
) -> (res: Result<(), EngineError>)
    ensures
        match chord_core(
            ctx_of(*clock, *voice, None),
            *old(current_tick),
            view_events(old(events)@),
            view_groups(old(groups)@),
            d,
            notes@,
            dotted,
            arpeggio,
            *art,
            vel,
        ) {
            Ok((t, evs, grs)) => res is Ok && *final(current_tick) == t && view_events(final(events)@) == evs
                && view_groups(final(groups)@) == grs,
            Err(m) => res matches Err(EngineError::CompileError(s)) && s@ == m,
        },
        res is Ok ==> final(events)@.len() >= old(events)@.len(),
{
    if d == 0 {
        return Err(arith_error());
    }
    let len = clock.duration_to_ticks(d, dotted);
    let pct = resolve_gate_percent(art, voice.gate_normal, voice.gate_staccato);
    proof {
        assert(len * (pct as int) <= u64::MAX) by (nonlinear_arith)
            requires
                len <= 0xffff * 6,
                pct <= 255,
        ;
    }
    let gate = apply_min_gate_off(len, pct, clock);
    let v = match vel {
        Some(x) => x,
        None => voice.velocity,
    };
    match arpeggio {
        Some(a) => {
            let count = arp_count(notes.len(), a.direction);
            proof {
                assert(count * (len as int) <= 0x2_0000_0000_0000_0000 * 0x6_0000) by (nonlinear_arith)
                    requires
                        count <= 0x2_0000_0000_0000_0000,
                        len <= 0x6_0000,
                ;
            }
            let span: u128 = count * (len as u128);
            if (*current_tick as u128) + span > u64::MAX as u128 {
                return Err(arith_error());
            }
            let ghost pre = view_events(events@);
            proof {
                if count > 0 {
                    assert((count - 1) * len + gate <= count * len) by (nonlinear_arith)
                        requires
                            count > 0,
                            gate <= len,
                    ;
                }
            }
            emit_arpeggio_cycle(notes, a.direction, len, gate, voice.channel, voice.device.as_str(), current_tick, events, groups, v);
            assert(view_events(events@).len() >= pre.len());
            Ok(())
        },
        None => {
            if *current_tick > u64::MAX - len {
                return Err(arith_error());
            }
            let ghost pre = view_events(events@);
            emit_chord(events, *current_tick, gate, voice.channel, voice.device.as_str(), notes, v);
            assert(view_events(events@).len() >= pre.len());
            *current_tick = *current_tick + len;
            Ok(())
        },
    }
}

/// The note number of a single note, as a one-note chord.
fn one_note(n: u8) -> (r: Vec<u8>)
    ensures
        r@ == seq![n],
{
    let mut v: Vec<u8> = Vec::new();
    v.push(n);
    assert(v@ =~= seq![n]);
    v
}

/// The note numbers of a bracket chord's tones.
fn bracket_note_numbers(tones: &Vec<(NoteName, Option<u8>)>, octave: u8) -> (r: Vec<u8>)
    ensures
        r@ == bracket_notes(tones@, octave),
{
    let mut out: Vec<u8> = Vec::new();
    let mut k: usize = 0;
    while k < tones.len()
        invariant
            k <= tones@.len(),
            out@ == bracket_notes(tones@, octave).take(k as int),
        decreases tones@.len() - k,
    {
        let (name, o) = tones[k];
        let oct = match o {
            Some(x) => x,
            None => octave,
        };
        out.push(note_number(name, oct));
        assert(out@ =~= bracket_notes(tones@, octave).take(k + 1));
        k += 1;
    }
    assert(bracket_notes(tones@, octave).take(tones@.len() as int) =~= bracket_notes(tones@, octave));
    out
}

/// Removes, from position `from` on, the events that start at or after
/// `target`.
fn truncate_segment(events: &mut Vec<MidiEvent>, from: usize, target: u64)
    requires
        from <= old(events)@.len(),
    ensures
        view_events(final(events)@) == cut_segment(view_events(old(events)@), from as nat, target),
{
    let ghost orig = view_events(events@);
    let ghost tail = orig.skip(from as int);
    let ghost keep = |e: EventView| e.tick < target;
    let ghost mut j: int = 0;
    let mut i: usize = from;
    proof {
        reveal(Seq::filter);
        assert(tail.take(0) =~= Seq::<EventView>::empty());
        assert(orig =~= orig.take(from as int) + tail.take(0).filter(keep) + tail.skip(0));
    }
    while i < events.len()
        invariant
            from <= i <= events@.len(),
            tail == orig.skip(from as int),
            from <= orig.len(),
            0 <= j <= tail.len(),
            keep == (|e: EventView| e.tick < target),
            view_events(events@) == orig.take(from as int) + tail.take(j).filter(keep) + tail.skip(j),
            i == from + tail.take(j).filter(keep).len(),
        decreases tail.len() - j,
    {
        proof {
            reveal(Seq::filter);
            assert(view_events(events@)[i as int] == tail[j]);
            assert(tail.take(j + 1).drop_last() =~= tail.take(j));
            assert(tail.take(j + 1).last() == tail[j]);
        }
        if events[i].tick >= target {
            let ghost pre = view_events(events@);
            events.remove(i);
            proof {
                assert(view_events(events@) =~= pre.remove(i as int));
                assert(view_events(events@) =~= orig.take(from as int) + tail.take(j + 1).filter(keep) + tail.skip(j + 1));
            }
        } else {
            proof {
                assert(view_events(events@) =~= orig.take(from as int) + tail.take(j + 1).filter(keep) + tail.skip(j + 1));
            }
            i += 1;
        }
        proof { j = j + 1; }
    }
    proof {
        assert(j == tail.len());
        assert(tail.take(j) =~= tail);
        assert(tail.skip(j) =~= Seq::<EventView>::empty());
        assert(view_events(events@) =~= cut_segment(orig, from as nat, target));
    }
}

/// The error of a bar jump beyond the clip's bars.
fn bar_jump_error(bar: u32, bars: u32) -> (r: EngineError)
    ensures
        r matches EngineError::CompileError(s) && s@ == bar_jump_failure(bar, bars),
{
    let mut m = owned(">");
    m.append(u64_to_string(bar as u64).as_str());
    m.append("はbars=");
    m.append(u64_to_string(bars as u64).as_str());
    m.append("の範囲外です");
    assert(m@ =~= bar_jump_failure(bar, bars));
    EngineError::CompileError(m)
}

/// The outcome of a compilation step as the executable state it leaves.
pub open spec fn step_matches(
    r: Result<Timeline, Seq<char>>,
    res: Result<(), EngineError>,
    tick: u64,
    carry: CarryOverState,
    events: Seq<MidiEvent>,
    groups: Seq<RandomChoiceGroup>,
) -> bool {
    match r {
        Ok(st) => res is Ok && st == timeline_of(tick, carry, events, groups),
        Err(m) => res matches Err(EngineError::CompileError(s)) && s@ == m,
    }
}

/// Compiles a note, rest or chord name: see `note_step`.
fn compile_note(
    clock: &Clock,
    voice: &LineVoice,
    bars: Option<u32>,
    n: &NoteEvent,
    art: &Articulation,
    vel: Option<u8>,
    current_tick: &mut u64,
    carry: &mut CarryOverState,
    events: &mut Vec<MidiEvent>,
    random_choice_groups: &mut Vec<RandomChoiceGroup>,
) -> (res: Result<(), EngineError>)
    ensures
        step_matches(
            note_step(
                ctx_of(*clock, *voice, bars),
                timeline_of(*old(current_tick), *old(carry), old(events)@, old(random_choice_groups)@),
                *n,
                *art,
                vel,
            ),
            res,
            *final(current_tick),
            *final(carry),
            final(events)@,
            final(random_choice_groups)@,
        ),
        res is Ok ==> final(events)@.len() >= old(events)@.len(),
{
    let ghost ctx = ctx_of(*clock, *voice, bars);
    match n {
        NoteEvent::Single { name, octave, duration, dotted } => {
            let r = carry.resolve(*octave, *duration, *dotted);
            let note = note_number(*name, r.octave);
            let one = one_note(note);
            proof {
                assert(seq![note].drop_last() =~= Seq::<u8>::empty());
            }
            sound_chord(clock, voice, &one, r.duration, r.dotted, None, art, vel, current_tick, events, random_choice_groups)
        },
        NoteEvent::Rest { duration, dotted } => {
            let r = carry.resolve_duration_only(*duration, *dotted);
            if r.duration == 0 {
                return Err(arith_error());
            }
            let len = clock.duration_to_ticks(r.duration, r.dotted);
            if *current_tick > u64::MAX - len {
                return Err(arith_error());
            }
            *current_tick = *current_tick + len;
            Ok(())
        },
        NoteEvent::ChordName { root, suffix, octave, duration, dotted, arpeggio } => {
            let r = carry.resolve(*octave, *duration, *dotted);
            let notes = chord_notes(*root, r.octave, suffix);
            let d = match arpeggio {
                Some(a) => match a.resolution {
                    Some(res) => carry.resolve_duration_only(Some(res), *dotted).duration,
                    None => r.duration,
                },
                None => r.duration,
            };
            sound_chord(clock, voice, &notes, d, *dotted, *arpeggio, art, vel, current_tick, events, random_choice_groups)
        },
    }
}

/// Compiles a bracket chord: see `bracket_step`.
fn compile_bracket(
    clock: &Clock,
    voice: &LineVoice,
    bars: Option<u32>,
    tones: &Vec<(NoteName, Option<u8>)>,
    duration: Option<u16>,
    dotted: bool,
    art: &Articulation,
    arpeggio: Option<Arpeggio>,
    vel: Option<u8>,
    current_tick: &mut u64,
    carry: &mut CarryOverState,
    events: &mut Vec<MidiEvent>,
    random_choice_groups: &mut Vec<RandomChoiceGroup>,
) -> (res: Result<(), EngineError>)
    ensures
        step_matches(
            bracket_step(
                ctx_of(*clock, *voice, bars),
                timeline_of(*old(current_tick), *old(carry), old(events)@, old(random_choice_groups)@),
                tones@,
                duration,
                dotted,
                *art,
                arpeggio,
                vel,
            ),
            res,
            *final(current_tick),
            *final(carry),
            final(events)@,
            final(random_choice_groups)@,
        ),
        res is Ok ==> final(events)@.len() >= old(events)@.len(),
{
    let resolved = bracket_note_numbers(tones, carry.octave);
    let d = match arpeggio {
        Some(a) => match a.resolution {
            Some(res) => carry.resolve_duration_only(Some(res), dotted).duration,
            None => carry.resolve_duration_only(duration, dotted).duration,
        },
        None => carry.resolve_duration_only(duration, dotted).duration,
    };
    sound_chord(clock, voice, &resolved, d, dotted, arpeggio, art, vel, current_tick, events, random_choice_groups)
}

/// Compiles a bar jump: see `bar_jump_step`.
fn compile_bar_jump(
    clock: &Clock,
    voice: &LineVoice,
    bars: Option<u32>,
    bar: u32,
    current_tick: &mut u64,
    anchor_tick: &mut u64,
    anchor_count: &mut usize,
    events: &Vec<MidiEvent>,
) -> (res: Result<(), EngineError>)
    ensures
        match bar_jump_step(
            ctx_of(*clock, *voice, bars),
            Timeline { tick: *old(current_tick), carry: CarryOverState { octave: 0, duration: 0 }, events: view_events(events@), groups: Seq::empty() },
            bar,
        ) {
            Ok((st, a)) => res is Ok && *final(current_tick) == st.tick && *final(anchor_tick) == a.tick && *final(anchor_count) == a.count,
            Err(m) => res matches Err(EngineError::CompileError(s)) && s@ == m,
        },
{
    if let Some(max) = bars {
        if bar > max {
            return Err(bar_jump_error(bar, max));
        }
    }
    if bar == 0 {
        return Err(arith_error());
    }
    let bt = clock.ticks_per_bar();
    proof {
        assert(bt <= 0xffff * 0xff * 4);
        assert((bar - 1) * bt <= 0xffff_ffff * (0xffff * 0xff * 4)) by (nonlinear_arith)
            requires
                bar - 1 <= 0xffff_ffff,
                bt <= 0xffff * 0xff * 4,
        ;
    }
    *current_tick = (bar - 1) as u64 * bt;
    *anchor_tick = *current_tick;
    *anchor_count = events.len();
    Ok(())
}

/// Compiles a `|`: see `pipe_step`.
fn compile_pipe(
    clock: &Clock,
    voice: &LineVoice,
    bars: Option<u32>,
    current_tick: &mut u64,
    anchor_tick: &mut u64,
    anchor_count: &mut usize,
    events: &mut Vec<MidiEvent>,
) -> (res: Result<(), EngineError>)
    requires
        *old(anchor_count) <= old(events)@.len(),
    ensures
        match pipe_step(
            ctx_of(*clock, *voice, bars),
            Timeline { tick: *old(current_tick), carry: CarryOverState { octave: 0, duration: 0 }, events: view_events(old(events)@), groups: Seq::empty() },
            Anchor { tick: *old(anchor_tick), count: *old(anchor_count) as nat },
        ) {
            Ok((st, a)) => res is Ok && *final(current_tick) == st.tick && view_events(final(events)@) == st.events && *final(anchor_tick)
                == a.tick && *final(anchor_count) == a.count,
            Err(m) => res matches Err(EngineError::CompileError(s)) && s@ == m,
        },
{
    let tpb = clock.ticks_per_beat();
    let since = if *current_tick > *anchor_tick {
        *current_tick - *anchor_tick
    } else {
        0
    };
    if since <= tpb {
        if *anchor_tick > u64::MAX - tpb {
            return Err(arith_error());
        }
        *current_tick = *anchor_tick + tpb;
    } else {
        if tpb == 0 {
            return Err(arith_error());
        }
        let beats = since / tpb;
        proof {
            assert(beats * tpb <= since) by (nonlinear_arith)
                requires
                    tpb > 0,
                    beats == since / tpb,
            ;
        }
        let target = *anchor_tick + beats * tpb;
        truncate_segment(events, *anchor_count, target);
        *current_tick = target;
    }
    *anchor_tick = *current_tick;
    *anchor_count = events.len();
    Ok(())
}

/// Compiles a repetition: its elements `count` times in a row.
fn compile_repetition(
    content: &Vec<PitchedElement>,
    count: u32,
    clock: &Clock,
    voice: &LineVoice,
    bars: Option<u32>,
    current_tick: &mut u64,
    carry: &mut CarryOverState,
    events: &mut Vec<MidiEvent>,
    random_choice_groups: &mut Vec<RandomChoiceGroup>,
) -> (res: Result<(), EngineError>)
    ensures
        step_matches(
            repeat(
                ctx_of(*clock, *voice, bars),
                content@,
                count as nat,
                timeline_of(*old(current_tick), *old(carry), old(events)@, old(random_choice_groups)@),
            ),
            res,
            *final(current_tick),
            *final(carry),
            final(events)@,
            final(random_choice_groups)@,
        ),
        res is Ok ==> final(events)@.len() >= old(events)@.len(),
    decreases content@, 2nat,
{
    let ghost ctx = ctx_of(*clock, *voice, bars);
    let ghost start = timeline_of(*current_tick, *carry, events@, random_choice_groups@);
    let mut r: u32 = 0;
    while r < count
        invariant
            ctx == ctx_of(*clock, *voice, bars),
            r <= count,
            events@.len() >= old(events)@.len(),
            start == timeline_of(*old(current_tick), *old(carry), old(events)@, old(random_choice_groups)@),
            repeat(ctx, content@, r as nat, start) == Ok::<Timeline, Seq<char>>(
                timeline_of(*current_tick, *carry, events@, random_choice_groups@),
            ),
        decreases count - r,
    {
        let res = compile_elements(content, clock, voice, bars, current_tick, carry, events, random_choice_groups);
        if let Err(e) = res {
            proof {
                lemma_repeat_stops(ctx, content@, r as nat, (count - r - 1) as nat, start);
            }
            return Err(e);
        }
        r += 1;
    }
    Ok(())
}

/// A failed round stops a repetition with its error.
proof fn lemma_repeat_stops(ctx: Ctx, inner: Seq<PitchedElement>, r: nat, more: nat, start: Timeline)
    requires
        repeat(ctx, inner, r, start) is Ok,
        run(ctx, inner, repeat(ctx, inner, r, start)->Ok_0) is Err,
    ensures
        repeat(ctx, inner, r + 1 + more, start) == run(ctx, inner, repeat(ctx, inner, r, start)->Ok_0),
    decreases more,
{
    if more > 0 {
        lemma_repeat_stops(ctx, inner, r, (more - 1) as nat, start);
    }
}

/// Compiles the elements of a pitched line (or of a repetition) onto the
/// running state: see `run`.
#[verifier::rlimit(80)]
pub fn compile_elements(
    elements: &Vec<PitchedElement>,
    clock: &Clock,
    voice: &LineVoice,
    bars: Option<u32>,
    current_tick: &mut u64,
    carry: &mut CarryOverState,
    events: &mut Vec<MidiEvent>,
    random_choice_groups: &mut Vec<RandomChoiceGroup>,
) -> (res: Result<(), EngineError>)
    ensures
        step_matches(
            run(
                ctx_of(*clock, *voice, bars),
                elements@,
                timeline_of(*old(current_tick), *old(carry), old(events)@, old(random_choice_groups)@),
            ),
            res,
            *final(current_tick),
            *final(carry),
            final(events)@,
            final(random_choice_groups)@,
        ),
        res is Ok ==> final(events)@.len() >= old(events)@.len(),
    decreases elements@, 1nat,
{
    let ghost ctx = ctx_of(*clock, *voice, bars);
    let ghost total = run(ctx, elements@, timeline_of(*current_tick, *carry, events@, random_choice_groups@));
    let mut anchor_tick: u64 = *current_tick;
    let mut anchor_count: usize = events.len();
    let mut i: usize = 0;
    while i < elements.len()
        invariant
            ctx == ctx_of(*clock, *voice, bars),
            i <= elements@.len(),
            old(events)@.len() <= anchor_count <= events@.len(),
            total == run(
                ctx,
                elements@,
                timeline_of(*old(current_tick), *old(carry), old(events)@, old(random_choice_groups)@),
            ),
            total == run_from(
                ctx,
                elements@,
                i as int,
                timeline_of(*current_tick, *carry, events@, random_choice_groups@),
                Anchor { tick: anchor_tick, count: anchor_count as nat },
            ),
        decreases elements@.len() - i,
    {
        let ghost st = timeline_of(*current_tick, *carry, events@, random_choice_groups@);
        let ghost anchor = Anchor { tick: anchor_tick, count: anchor_count as nat };
        match &elements[i] {
            PitchedElement::Note(n, art, vel) => {
                let res = compile_note(clock, voice, bars, n, art, *vel, current_tick, carry, events, random_choice_groups);
                if let Err(e) = res {
                    return Err(e);
                }
            },
            PitchedElement::ChordBracket { notes, duration, dotted, articulation, arpeggio, velocity } => {
                let res = compile_bracket(
                    clock,
                    voice,
                    bars,
                    notes,
                    *duration,
                    *dotted,
                    articulation,
                    *arpeggio,
                    *velocity,
                    current_tick,
                    carry,
                    events,
                    random_choice_groups,
                );
                if let Err(e) = res {
                    return Err(e);
                }
            },
            PitchedElement::Repetition(rep) => {
                proof {
                    assert(decreases_to!(elements@ => elements@[i as int]));
                }
                let res = compile_repetition(&rep.content, rep.count, clock, voice, bars, current_tick, carry, events, random_choice_groups);
                if let Err(e) = res {
                    return Err(e);
                }
            },
            PitchedElement::BarJump(j) => {
                let res = compile_bar_jump(clock, voice, bars, j.bar_number, current_tick, &mut anchor_tick, &mut anchor_count, events);
                if let Err(e) = res {
                    return Err(e);
                }
            },
            PitchedElement::PipeSnap => {
                let res = compile_pipe(clock, voice, bars, current_tick, &mut anchor_tick, &mut anchor_count, events);
                if let Err(e) = res {
                    return Err(e);
                }
            },
        }
        i += 1;
    }
    Ok(())
}

} // verus!
