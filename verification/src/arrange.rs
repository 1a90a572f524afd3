//! Post-processing of a clip's events before they are sorted: the whole
//! clip octave shift of pitched clips, and the `bars` limit.
//!
//! Under a `bars` limit an event at or after the clip end is dropped,
//! except a note-off whose note was started (by a note-on of the same
//! channel, note and device) inside the clip: it is moved to the last tick
//! of the clip so that no note hangs. Group indices follow the events that
//! stay; emptied drum groups, emptied candidates and random-choice groups
//! left with fewer than two candidates are removed.

use vstd::prelude::*;

use crate::compiler::{DrumProbabilityGroup, MidiEvent, RandomChoiceGroup};
use crate::domain::MidiChannel;
use crate::drum::{view_drum_groups, DrumGroupView};
use crate::emit::{candidates_of, view_event, view_events, view_groups, EventView};
use crate::error::EngineError;
use crate::midi::MidiMessage;
use crate::text::{decimal, i64_to_string, owned, signed_decimal, u64_to_string};

verus! {

/// The note of a note-on or note-off.
pub open spec fn note_of(m: MidiMessage) -> Option<u8> {
    match m {
        MidiMessage::NoteOn { note, .. } => Some(note),
        MidiMessage::NoteOff { note, .. } => Some(note),
        _ => None,
    }
}

/// A note message with its note replaced.
pub open spec fn with_note(m: MidiMessage, n: u8) -> MidiMessage {
    match m {
        MidiMessage::NoteOn { channel, velocity, .. } => MidiMessage::NoteOn { channel, note: n, velocity },
        MidiMessage::NoteOff { channel, velocity, .. } => MidiMessage::NoteOff { channel, note: n, velocity },
        _ => m,
    }
}

/// The message of a shifted note outside the MIDI range.
pub open spec fn shift_failure(shift: i8, note: u8, shifted: int) -> Seq<char> {
    "オクターブシフト ["@ + signed_decimal(shift as int) + "] によりノート番号が MIDI 範囲 (0-127) を外れました: "@ + decimal(
        note as nat,
    ) + " -> "@ + signed_decimal(shifted)
}

/// The first `k` events shifted by `shift` octaves; the first note that
/// leaves 0-127 fails.
pub open spec fn shift_prefix(evs: Seq<EventView>, shift: i8, k: int) -> Result<Seq<EventView>, Seq<char>>
    decreases k,
{
    if k <= 0 {
        Ok(Seq::empty())
    } else {
        match shift_prefix(evs, shift, k - 1) {
            Err(m) => Err(m),
            Ok(pre) => {
                let e = evs[k - 1];
                match note_of(e.message) {
                    None => Ok(pre.push(e)),
                    Some(n) => {
                        let s = n + shift * 12;
                        if s < 0 || s > 127 {
                            Err(shift_failure(shift, n, s))
                        } else {
                            Ok(pre.push(EventView { message: with_note(e.message, s as u8), ..e }))
                        }
                    },
                }
            },
        }
    }
}

/// The events of a clip shifted by `shift` octaves (none for 0).
pub open spec fn octave_shift_spec(evs: Seq<EventView>, shift: i8) -> Result<Seq<EventView>, Seq<char>> {
    if shift == 0 {
        Ok(evs)
    } else {
        shift_prefix(evs, shift, evs.len() as int)
    }
}

/// Once a prefix fails, the whole shift fails the same.
proof fn lemma_shift_err(evs: Seq<EventView>, shift: i8, i: int, n: int)
    requires
        0 <= i <= n,
        shift_prefix(evs, shift, i) is Err,
    ensures
        shift_prefix(evs, shift, n) == shift_prefix(evs, shift, i),
    decreases n - i,
{
    if i < n {
        lemma_shift_err(evs, shift, i, n - 1);
    }
}

/// The error of a shifted note outside the MIDI range.
fn shift_error(shift: i8, note: u8, shifted: i32) -> (r: EngineError)
    ensures
        r matches EngineError::CompileError(s) && s@ == shift_failure(shift, note, shifted as int),
{
    let mut m = owned("オクターブシフト [");
    m.append(&i64_to_string(shift as i64));
    m.append("] によりノート番号が MIDI 範囲 (0-127) を外れました: ");
    m.append(&u64_to_string(note as u64));
    m.append(" -> ");
    m.append(&i64_to_string(shifted as i64));
    assert(m@ =~= shift_failure(shift, note, shifted as int));
    EngineError::CompileError(m)
}

/// Shifts every note of the events by `octave_shift` octaves. On an error
/// the events are left as they were.
pub fn apply_octave_shift(events: &mut Vec<MidiEvent>, octave_shift: i8) -> (r: Result<(), EngineError>)
    ensures
        match octave_shift_spec(view_events(old(events)@), octave_shift) {
            Ok(evs) => r is Ok && view_events(final(events)@) == evs,
            Err(m) => r matches Err(EngineError::CompileError(s)) && s@ == m && final(events)@ == old(events)@,
        },
{
    if octave_shift == 0 {
        return Ok(());
    }
    let ghost evs = view_events(events@);
    let delta: i32 = octave_shift as i32 * 12;
    let mut out: Vec<MidiEvent> = Vec::new();
    let mut i: usize = 0;
    assert(view_events(out@) =~= Seq::<EventView>::empty());
    while i < events.len()
        invariant
            evs == view_events(events@),
            events@ == old(events)@,
            octave_shift != 0,
            i <= events@.len(),
            delta == octave_shift * 12,
            shift_prefix(evs, octave_shift, i as int) == Ok::<Seq<EventView>, Seq<char>>(view_events(out@)),
        decreases events@.len() - i,
    {
        let e = &events[i];
        assert(evs[i as int] == view_event(*e));
        let msg = match e.message {
            MidiMessage::NoteOn { channel, note, velocity } => {
                let s = note as i32 + delta;
                if s < 0 || s > 127 {
                    proof {
                        assert(shift_prefix(evs, octave_shift, i + 1) == Err::<Seq<EventView>, Seq<char>>(
                            shift_failure(octave_shift, note, s as int),
                        ));
                        lemma_shift_err(evs, octave_shift, i + 1, evs.len() as int);
                    }
                    return Err(shift_error(octave_shift, note, s));
                }
                MidiMessage::NoteOn { channel, note: s as u8, velocity }
            },
            MidiMessage::NoteOff { channel, note, velocity } => {
                let s = note as i32 + delta;
                if s < 0 || s > 127 {
                    proof {
                        assert(shift_prefix(evs, octave_shift, i + 1) == Err::<Seq<EventView>, Seq<char>>(
                            shift_failure(octave_shift, note, s as int),
                        ));
                        lemma_shift_err(evs, octave_shift, i + 1, evs.len() as int);
                    }
                    return Err(shift_error(octave_shift, note, s));
                }
                MidiMessage::NoteOff { channel, note: s as u8, velocity }
            },
            other => other,
        };
        let ghost pre = out@;
        let ne = MidiEvent { tick: e.tick, message: msg, device: e.device.clone() };
        out.push(ne);
        assert(view_events(out@) =~= view_events(pre).push(view_event(ne)));
        i += 1;
    }
    *events = out;
    Ok(())
}

/// What the `bars` limit does to an event.
pub enum Fate {
    Keep,
    Clamp,
    Drop,
}

/// `e` is a note-on of the given channel, note and device.
pub open spec fn starts_note(e: EventView, channel: MidiChannel, note: u8, device: Seq<char>) -> bool {
    &&& e.message matches MidiMessage::NoteOn { channel: c, note: n, .. }
    &&& c == channel
    &&& n == note
    &&& e.device == device
}

/// Some note-on of the given channel, note and device lies inside the
/// clip.
pub open spec fn started_inside(evs: Seq<EventView>, max: int, channel: MidiChannel, note: u8, device: Seq<char>) -> bool {
    exists|j: int| 0 <= j < evs.len() && evs[j].tick < max && #[trigger] starts_note(evs[j], channel, note, device)
}

/// What the limit `max` does to event `i`.
pub open spec fn fate(evs: Seq<EventView>, max: int, i: int) -> Fate {
    let e = evs[i];
    if e.tick < max {
        Fate::Keep
    } else {
        match e.message {
            MidiMessage::NoteOff { channel, note, .. } => if started_inside(evs, max, channel, note, e.device) {
                Fate::Clamp
            } else {
                Fate::Drop
            },
            _ => Fate::Drop,
        }
    }
}

/// The last tick of a clip of `max` ticks (0 for an empty clip).
pub open spec fn clamp_tick(max: int) -> int {
    if max > 0 {
        max - 1
    } else {
        0
    }
}

/// The events of the first `k` that stay, clamped ones moved to the last
/// tick.
pub open spec fn kept_events(evs: Seq<EventView>, max: int, k: int) -> Seq<EventView>
    decreases k,
{
    if k <= 0 {
        Seq::empty()
    } else {
        let pre = kept_events(evs, max, k - 1);
        match fate(evs, max, k - 1) {
            Fate::Keep => pre.push(evs[k - 1]),
            Fate::Clamp => pre.push(EventView { tick: clamp_tick(max) as u64, ..evs[k - 1] }),
            Fate::Drop => pre,
        }
    }
}

/// How many of the first `k` events are clamped.
pub open spec fn clamp_count(evs: Seq<EventView>, max: int, k: int) -> nat
    decreases k,
{
    if k <= 0 {
        0
    } else {
        clamp_count(evs, max, k - 1) + if fate(evs, max, k - 1) is Clamp {
            1nat
        } else {
            0nat
        }
    }
}

/// How many of the first `k` events are dropped.
pub open spec fn drop_count(evs: Seq<EventView>, max: int, k: int) -> nat
    decreases k,
{
    if k <= 0 {
        0
    } else {
        drop_count(evs, max, k - 1) + if fate(evs, max, k - 1) is Drop {
            1nat
        } else {
            0nat
        }
    }
}

/// Where event `i` is after the limit, if it stays.
pub open spec fn new_index(evs: Seq<EventView>, max: int, i: int) -> Option<usize> {
    if 0 <= i < evs.len() && !(fate(evs, max, i) is Drop) {
        Some(kept_events(evs, max, i).len() as usize)
    } else {
        None
    }
}

/// The first `k` indices of a list moved along, dropped events left out.
pub open spec fn remap_list(evs: Seq<EventView>, max: int, idxs: Seq<usize>, k: int) -> Seq<usize>
    decreases k,
{
    if k <= 0 {
        Seq::empty()
    } else {
        let pre = remap_list(evs, max, idxs, k - 1);
        match new_index(evs, max, idxs[k - 1] as int) {
            Some(n) => pre.push(n),
            None => pre,
        }
    }
}

/// An index list moved along.
pub open spec fn remapped(evs: Seq<EventView>, max: int, idxs: Seq<usize>) -> Seq<usize> {
    remap_list(evs, max, idxs, idxs.len() as int)
}

/// The first `k` drum groups moved along, emptied ones removed.
pub open spec fn drums_after(evs: Seq<EventView>, max: int, gs: Seq<DrumGroupView>, k: int) -> Seq<DrumGroupView>
    decreases k,
{
    if k <= 0 {
        Seq::empty()
    } else {
        let pre = drums_after(evs, max, gs, k - 1);
        let r = remapped(evs, max, gs[k - 1].indices);
        if r.len() > 0 {
            pre.push(DrumGroupView { indices: r, probability: gs[k - 1].probability })
        } else {
            pre
        }
    }
}

/// The first `k` candidates of a group moved along, emptied ones removed.
pub open spec fn candidates_after(evs: Seq<EventView>, max: int, g: Seq<Seq<usize>>, k: int) -> Seq<Seq<usize>>
    decreases k,
{
    if k <= 0 {
        Seq::empty()
    } else {
        let pre = candidates_after(evs, max, g, k - 1);
        let r = remapped(evs, max, g[k - 1]);
        if r.len() > 0 {
            pre.push(r)
        } else {
            pre
        }
    }
}

/// The first `k` random-choice groups moved along, those left with fewer
/// than two candidates removed.
pub open spec fn randoms_after(evs: Seq<EventView>, max: int, gs: Seq<Seq<Seq<usize>>>, k: int) -> Seq<Seq<Seq<usize>>>
    decreases k,
{
    if k <= 0 {
        Seq::empty()
    } else {
        let pre = randoms_after(evs, max, gs, k - 1);
        let cs = candidates_after(evs, max, gs[k - 1], gs[k - 1].len() as int);
        if cs.len() >= 2 {
            pre.push(cs)
        } else {
            pre
        }
    }
}

/// The warning of clamped note-offs.
pub open spec fn clamp_warning(name: Seq<char>, bars: u32, n: nat) -> Seq<char> {
    "clip '"@ + name + "': bars="@ + decimal(bars as nat) + " を超過する Note Off が "@ + decimal(n) + "個あり、clip 末尾へクランプしました"@
}

/// The warning of dropped events.
pub open spec fn drop_warning(name: Seq<char>, bars: u32, n: nat) -> Seq<char> {
    "clip '"@ + name + "': bars="@ + decimal(bars as nat) + " を超過するイベントが "@ + decimal(n) + "個あり、切り捨てられました"@
}

/// The warnings of a clip limited to `bars` bars of `max` ticks.
pub open spec fn bars_warnings(evs: Seq<EventView>, max: int, name: Seq<char>, bars: u32) -> Seq<Seq<char>> {
    let c = clamp_count(evs, max, evs.len() as int);
    let d = drop_count(evs, max, evs.len() as int);
    let w1: Seq<Seq<char>> = if c > 0 {
        seq![clamp_warning(name, bars, c)]
    } else {
        Seq::empty()
    };
    let w2: Seq<Seq<char>> = if d > 0 {
        seq![drop_warning(name, bars, d)]
    } else {
        Seq::empty()
    };
    w1 + w2
}

/// Whether a note-on of the channel, note and device lies inside the clip.
fn find_started(events: &Vec<MidiEvent>, max: u64, channel: MidiChannel, note: u8, device: &String) -> (r: bool)
    ensures
        r == started_inside(view_events(events@), max as int, channel, note, device@),
{
    let ghost evs = view_events(events@);
    let mut j: usize = 0;
    while j < events.len()
        invariant
            evs == view_events(events@),
            j <= events@.len(),
            forall|t: int| 0 <= t < j ==> !(evs[t].tick < max && #[trigger] starts_note(evs[t], channel, note, device@)),
        decreases events@.len() - j,
    {
        let e = &events[j];
        assert(evs[j as int] == view_event(*e));
        if e.tick < max {
            if let MidiMessage::NoteOn { channel: c, note: n, .. } = e.message {
                if c == channel && n == note && e.device == *device {
                    assert(starts_note(evs[j as int], channel, note, device@));
                    return true;
                }
            }
        }
        j += 1;
    }
    false
}

/// The events that stay under the limit `max` (clamped ones moved to the
/// last tick), where each event went, and how many were clamped and
/// dropped.
pub fn limit_to(events: &Vec<MidiEvent>, max: u64) -> (r: (Vec<MidiEvent>, Vec<Option<usize>>, usize, usize))
    ensures
        view_events(r.0@) == kept_events(view_events(events@), max as int, events@.len() as int),
        r.1@.len() == events@.len(),
        forall|i: int| 0 <= i < events@.len() ==> #[trigger] r.1@[i] == new_index(view_events(events@), max as int, i),
        r.2 == clamp_count(view_events(events@), max as int, events@.len() as int),
        r.3 == drop_count(view_events(events@), max as int, events@.len() as int),
{
    let ghost evs = view_events(events@);
    let target: u64 = if max > 0 { max - 1 } else { 0 };
    let mut out: Vec<MidiEvent> = Vec::new();
    let mut map: Vec<Option<usize>> = Vec::new();
    let mut clamps: usize = 0;
    let mut drops: usize = 0;
    let mut i: usize = 0;
    assert(view_events(out@) =~= Seq::<EventView>::empty());
    while i < events.len()
        invariant
            evs == view_events(events@),
            i <= events@.len(),
            target == clamp_tick(max as int),
            view_events(out@) == kept_events(evs, max as int, i as int),
            map@.len() == i,
            forall|t: int| 0 <= t < i ==> #[trigger] map@[t] == new_index(evs, max as int, t),
            clamps == clamp_count(evs, max as int, i as int),
            drops == drop_count(evs, max as int, i as int),
            clamps + drops <= i,
            out@.len() <= i,
        decreases events@.len() - i,
    {
        let e = &events[i];
        assert(evs[i as int] == view_event(*e));
        let ghost pre = out@;
        if e.tick < max {
            map.push(Some(out.len()));
            let ne = MidiEvent { tick: e.tick, message: e.message, device: e.device.clone() };
            out.push(ne);
            assert(view_events(out@) =~= view_events(pre).push(view_event(ne)));
        } else {
            let clamp = match e.message {
                MidiMessage::NoteOff { channel, note, .. } => find_started(events, max, channel, note, &e.device),
                _ => false,
            };
            assert(clamp == (fate(evs, max as int, i as int) is Clamp));
            if clamp {
                map.push(Some(out.len()));
                let ne = MidiEvent { tick: target, message: e.message, device: e.device.clone() };
                out.push(ne);
                assert(view_events(out@) =~= view_events(pre).push(view_event(ne)));
                clamps = clamps + 1;
            } else {
                map.push(None);
                drops = drops + 1;
            }
        }
        i += 1;
    }
    (out, map, clamps, drops)
}

/// An index list moved along by the map of `limit_to`.
fn remap_indices(idxs: &Vec<usize>, map: &Vec<Option<usize>>, Ghost(evs): Ghost<Seq<EventView>>, Ghost(max): Ghost<int>) -> (r: Vec<usize>)
    requires
        map@.len() == evs.len(),
        forall|i: int| 0 <= i < evs.len() ==> #[trigger] map@[i] == new_index(evs, max, i),
    ensures
        r@ == remapped(evs, max, idxs@),
{
    let mut out: Vec<usize> = Vec::new();
    let mut j: usize = 0;
    while j < idxs.len()
        invariant
            map@.len() == evs.len(),
            forall|i: int| 0 <= i < evs.len() ==> #[trigger] map@[i] == new_index(evs, max, i),
            j <= idxs@.len(),
            out@ == remap_list(evs, max, idxs@, j as int),
        decreases idxs@.len() - j,
    {
        let x = idxs[j];
        if x < map.len() {
            match map[x] {
                Some(n) => out.push(n),
                None => {},
            }
        }
        j += 1;
    }
    out
}

/// Drum groups moved along by the map of `limit_to`, emptied ones removed.
pub(crate) fn drums_limited(groups: &Vec<DrumProbabilityGroup>, map: &Vec<Option<usize>>, Ghost(evs): Ghost<Seq<EventView>>, Ghost(max): Ghost<int>) -> (r: Vec<
    DrumProbabilityGroup,
>)
    requires
        map@.len() == evs.len(),
        forall|i: int| 0 <= i < evs.len() ==> #[trigger] map@[i] == new_index(evs, max, i),
    ensures
        view_drum_groups(r@) == drums_after(evs, max, view_drum_groups(groups@), groups@.len() as int),
{
    let ghost gs = view_drum_groups(groups@);
    let mut out: Vec<DrumProbabilityGroup> = Vec::new();
    let mut g: usize = 0;
    assert(view_drum_groups(out@) =~= Seq::<DrumGroupView>::empty());
    while g < groups.len()
        invariant
            map@.len() == evs.len(),
            forall|i: int| 0 <= i < evs.len() ==> #[trigger] map@[i] == new_index(evs, max, i),
            gs == view_drum_groups(groups@),
            g <= groups@.len(),
            view_drum_groups(out@) == drums_after(evs, max, gs, g as int),
        decreases groups@.len() - g,
    {
        assert(gs[g as int].indices == groups@[g as int].event_indices@);
        let idx = remap_indices(&groups[g].event_indices, map, Ghost(evs), Ghost(max));
        if idx.len() > 0 {
            let ghost pre = out@;
            let grp = DrumProbabilityGroup { event_indices: idx, probability: groups[g].probability };
            out.push(grp);
            assert(view_drum_groups(out@) =~= view_drum_groups(pre).push(
                DrumGroupView { indices: remapped(evs, max, gs[g as int].indices), probability: gs[g as int].probability },
            ));
        }
        g += 1;
    }
    out
}

/// Random-choice groups moved along by the map of `limit_to`: emptied
/// candidates removed, then groups with fewer than two candidates.
pub(crate) fn randoms_limited(groups: &Vec<RandomChoiceGroup>, map: &Vec<Option<usize>>, Ghost(evs): Ghost<Seq<EventView>>, Ghost(max): Ghost<int>) -> (r: Vec<
    RandomChoiceGroup,
>)
    requires
        map@.len() == evs.len(),
        forall|i: int| 0 <= i < evs.len() ==> #[trigger] map@[i] == new_index(evs, max, i),
    ensures
        view_groups(r@) == randoms_after(evs, max, view_groups(groups@), groups@.len() as int),
{
    let ghost gs = view_groups(groups@);
    let mut out: Vec<RandomChoiceGroup> = Vec::new();
    let mut g: usize = 0;
    assert(view_groups(out@) =~= Seq::<Seq<Seq<usize>>>::empty());
    while g < groups.len()
        invariant
            map@.len() == evs.len(),
            forall|i: int| 0 <= i < evs.len() ==> #[trigger] map@[i] == new_index(evs, max, i),
            gs == view_groups(groups@),
            g <= groups@.len(),
            view_groups(out@) == randoms_after(evs, max, gs, g as int),
        decreases groups@.len() - g,
    {
        let ghost src = gs[g as int];
        assert(src == candidates_of(groups@[g as int]));
        let mut cands: Vec<Vec<usize>> = Vec::new();
        let mut c: usize = 0;
        assert(cands@.map_values(|v: Vec<usize>| v@) =~= Seq::<Seq<usize>>::empty());
        while c < groups[g].candidates.len()
            invariant
                map@.len() == evs.len(),
                forall|i: int| 0 <= i < evs.len() ==> #[trigger] map@[i] == new_index(evs, max, i),
                g < groups@.len(),
                src == candidates_of(groups@[g as int]),
                c <= src.len(),
                cands@.map_values(|v: Vec<usize>| v@) == candidates_after(evs, max, src, c as int),
            decreases src.len() - c,
        {
            assert(src[c as int] == groups@[g as int].candidates@[c as int]@);
            let r = remap_indices(&groups[g].candidates[c], map, Ghost(evs), Ghost(max));
            if r.len() > 0 {
                let ghost pre = cands@;
                cands.push(r);
                assert(cands@.map_values(|v: Vec<usize>| v@) =~= pre.map_values(|v: Vec<usize>| v@).push(r@));
            }
            c += 1;
        }
        if cands.len() >= 2 {
            let ghost pre = out@;
            let grp = RandomChoiceGroup { candidates: cands };
            out.push(grp);
            assert(view_groups(out@) =~= view_groups(pre).push(candidates_of(grp)));
        }
        g += 1;
    }
    out
}

/// The warnings of a clip limited to `bars` bars.
pub fn bars_warning_texts(name: &String, bars: u32, clamps: usize, drops: usize) -> (r: Vec<String>)
    ensures
        r@.map_values(|w: String| w@) == ({
            let w1: Seq<Seq<char>> = if clamps > 0 {
                seq![clamp_warning(name@, bars, clamps as nat)]
            } else {
                Seq::empty()
            };
            let w2: Seq<Seq<char>> = if drops > 0 {
                seq![drop_warning(name@, bars, drops as nat)]
            } else {
                Seq::empty()
            };
            w1 + w2
        }),
{
    let mut out: Vec<String> = Vec::new();
    if clamps > 0 {
        let mut m = owned("clip '");
        m.append(name.as_str());
        m.append("': bars=");
        m.append(&u64_to_string(bars as u64));
        m.append(" を超過する Note Off が ");
        m.append(&u64_to_string(clamps as u64));
        m.append("個あり、clip 末尾へクランプしました");
        assert(m@ =~= clamp_warning(name@, bars, clamps as nat));
        out.push(m);
    }
    if drops > 0 {
        let mut m = owned("clip '");
        m.append(name.as_str());
        m.append("': bars=");
        m.append(&u64_to_string(bars as u64));
        m.append(" を超過するイベントが ");
        m.append(&u64_to_string(drops as u64));
        m.append("個あり、切り捨てられました");
        assert(m@ =~= drop_warning(name@, bars, drops as nat));
        out.push(m);
    }
    assert(out@.map_values(|w: String| w@) =~= ({
        let w1: Seq<Seq<char>> = if clamps > 0 {
            seq![clamp_warning(name@, bars, clamps as nat)]
        } else {
            Seq::empty()
        };
        let w2: Seq<Seq<char>> = if drops > 0 {
            seq![drop_warning(name@, bars, drops as nat)]
        } else {
            Seq::empty()
        };
        w1 + w2
    }));
    out
}

} // verus!
