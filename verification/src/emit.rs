//! Building blocks of clip compilation: the carried octave and note value,
//! gate lengths, and the note events of single notes, chords and
//! arpeggios.

use vstd::prelude::*;

use crate::arpeggio::{arpeggio_sequence, build_arpeggio_sequence};
use crate::ast::{ArpeggioDirection, Articulation, HitSymbol, KitInstrument};
use crate::clock::{tick_duration_spec, Clock};
use crate::compiler::{MidiEvent, RandomChoiceGroup};
use crate::domain::MidiChannel;
use crate::midi::MidiMessage;

verus! {

/// Octave and note value carried from one note to the next within a
/// layer.
#[derive(Clone, Copy, Debug, PartialEq, Eq, Structural)]
pub struct CarryOverState {
    pub octave: u8,
    pub duration: u16,
}

/// The octave, note value and dot a note is played with.
#[derive(Clone, Copy, Debug, PartialEq, Eq, Structural)]
pub struct ResolvedNote {
    pub octave: u8,
    pub duration: u16,
    pub dotted: bool,
}

impl CarryOverState {
    /// The carried values after a note: what it states replaces what was
    /// carried.
    pub open spec fn with(self, octave: Option<u8>, duration: Option<u16>) -> CarryOverState {
        CarryOverState {
            octave: match octave {
                Some(o) => o,
                None => self.octave,
            },
            duration: match duration {
                Some(d) => d,
                None => self.duration,
            },
        }
    }

    /// Octave 4, quarter notes.
    pub fn new() -> (r: CarryOverState)
        ensures
            r == (CarryOverState { octave: 4, duration: 4 }),
    {
        CarryOverState { octave: 4, duration: 4 }
    }

    /// Takes the octave and note value a note states and fills in the ones
    /// it leaves out from the carried values.
    pub fn resolve(&mut self, octave: Option<u8>, duration: Option<u16>, dotted: bool) -> (r: ResolvedNote)
        ensures
            *final(self) == old(self).with(octave, duration),
            r == (ResolvedNote { octave: final(self).octave, duration: final(self).duration, dotted }),
    {
        if let Some(o) = octave {
            self.octave = o;
        }
        if let Some(d) = duration {
            self.duration = d;
        }
        ResolvedNote { octave: self.octave, duration: self.duration, dotted }
    }

    /// Like `resolve` for a rest or chord: only the note value.
    pub fn resolve_duration_only(&mut self, duration: Option<u16>, dotted: bool) -> (r: ResolvedNote)
        ensures
            *final(self) == old(self).with(None, duration),
            r == (ResolvedNote { octave: final(self).octave, duration: final(self).duration, dotted }),
    {
        if let Some(d) = duration {
            self.duration = d;
        }
        ResolvedNote { octave: self.octave, duration: self.duration, dotted }
    }
}

/// Gate percentage of an articulation.
pub open spec fn gate_percent_spec(art: Articulation, gate_normal: u8, gate_staccato: u8) -> u8 {
    match art {
        Articulation::Normal => gate_normal,
        Articulation::Staccato => gate_staccato,
        Articulation::GateDirect(p) => p,
    }
}

/// Gate percentage of an articulation.
pub fn resolve_gate_percent(art: &Articulation, gate_normal: u8, gate_staccato: u8) -> (r: u8)
    ensures
        r == gate_percent_spec(*art, gate_normal, gate_staccato),
{
    match art {
        Articulation::Normal => gate_normal,
        Articulation::Staccato => gate_staccato,
        Articulation::GateDirect(p) => *p,
    }
}

/// The velocity of a drum hit: the kit instrument's own velocity for the
/// symbol, else 100 (normal), 127 (accent) or 40 (ghost); none for a rest.
pub open spec fn drum_velocity_spec(hit: HitSymbol, ki: KitInstrument) -> Option<u8> {
    match hit {
        HitSymbol::Normal => Some(
            match ki.velocity_normal {
                Some(v) => v,
                None => 100,
            },
        ),
        HitSymbol::Accent => Some(
            match ki.velocity_accent {
                Some(v) => v,
                None => 127,
            },
        ),
        HitSymbol::GhostNote => Some(
            match ki.velocity_ghost {
                Some(v) => v,
                None => 40,
            },
        ),
        HitSymbol::Rest => None,
    }
}

/// The velocity of a drum hit.
pub fn resolve_drum_velocity(hit: &HitSymbol, ki: &KitInstrument) -> (r: Option<u8>)
    ensures
        r == drum_velocity_spec(*hit, *ki),
{
    match hit {
        HitSymbol::Normal => Some(
            match ki.velocity_normal {
                Some(v) => v,
                None => 100,
            },
        ),
        HitSymbol::Accent => Some(
            match ki.velocity_accent {
                Some(v) => v,
                None => 127,
            },
        ),
        HitSymbol::GhostNote => Some(
            match ki.velocity_ghost {
                Some(v) => v,
                None => 40,
            },
        ),
        HitSymbol::Rest => None,
    }
}

/// Ticks that a gap of 5 ms takes at `tick_us` microseconds per tick,
/// rounded up (0 when the tick length is 0).
pub open spec fn min_off_ticks(tick_us: int) -> int {
    if tick_us > 0 {
        (5000 + tick_us - 1) / tick_us
    } else {
        0
    }
}

/// How long a note of `note_ticks` sounds at `percent` gate: the
/// percentage of its length, cut so that at least 5 ms of silence follow;
/// 100 % is legato and sounds the whole length.
pub open spec fn gate_ticks_spec(note_ticks: int, percent: u8, tick_us: int) -> int {
    if percent == 100 {
        note_ticks
    } else {
        let gate = note_ticks * percent / 100;
        let max_gate = if note_ticks > min_off_ticks(tick_us) {
            note_ticks - min_off_ticks(tick_us)
        } else {
            0
        };
        if gate < max_gate {
            gate
        } else {
            max_gate
        }
    }
}

/// Gate length of a note, keeping at least 5 ms of silence after it.
pub fn apply_min_gate_off(note_ticks: u64, gate_percent: u8, clock: &Clock) -> (r: u64)
    requires
        gate_percent == 100 || note_ticks * gate_percent <= u64::MAX,
    ensures
        r == gate_ticks_spec(note_ticks as int, gate_percent, tick_duration_spec(clock.bpm_spec(), clock.ppq_spec())),
        r <= note_ticks,
{
    if gate_percent == 100 {
        return note_ticks;
    }
    let gate_ticks = note_ticks * gate_percent as u64 / 100;
    let tick_us = clock.tick_duration_us();
    let min_off: u64 = if tick_us > 0 {
        let q = 5000 / tick_us;
        let extra: u64 = if 5000 % tick_us != 0 { 1 } else { 0 };
        proof {
            assert((5000int + tick_us - 1) / (tick_us as int) == q + extra) by (nonlinear_arith)
                requires
                    tick_us > 0,
                    q == 5000int / (tick_us as int),
                    extra == if 5000int % (tick_us as int) != 0 { 1int } else { 0int },
            ;
        }
        q + extra
    } else {
        0
    };
    let max_gate = if note_ticks > min_off { note_ticks - min_off } else { 0 };
    if gate_ticks < max_gate {
        gate_ticks
    } else {
        max_gate
    }
}

/// An event as values: tick, message and device name.
pub struct EventView {
    pub tick: u64,
    pub message: MidiMessage,
    pub device: Seq<char>,
}

/// An event as values.
pub open spec fn view_event(e: MidiEvent) -> EventView {
    EventView { tick: e.tick, message: e.message, device: e.device@ }
}

/// Events as values.
pub open spec fn view_events(s: Seq<MidiEvent>) -> Seq<EventView> {
    s.map_values(|e: MidiEvent| view_event(e))
}

/// Random-choice groups as lists of candidate index lists.
pub open spec fn view_groups(s: Seq<RandomChoiceGroup>) -> Seq<Seq<Seq<usize>>> {
    s.map_values(|g: RandomChoiceGroup| candidates_of(g))
}

/// The candidates of a group as index lists.
pub open spec fn candidates_of(g: RandomChoiceGroup) -> Seq<Seq<usize>> {
    g.candidates@.map_values(|c: Vec<usize>| c@)
}

/// Who plays the notes of a line: channel, device, gate percentages and
/// default velocity.
pub struct Voice {
    pub channel: MidiChannel,
    pub device: Seq<char>,
    pub gate_normal: u8,
    pub gate_staccato: u8,
    pub velocity: u8,
}

/// A note-on and its note-off, `gate` ticks later.
pub open spec fn note_pair(channel: MidiChannel, device: Seq<char>, tick: int, gate: int, note: u8, velocity: u8) -> Seq<EventView> {
    seq![
        EventView { tick: tick as u64, message: MidiMessage::NoteOn { channel, note, velocity }, device },
        EventView { tick: (tick + gate) as u64, message: MidiMessage::NoteOff { channel, note, velocity: 0 }, device },
    ]
}

/// The note pairs of `notes`, all starting at `tick`, in order.
pub open spec fn chord_events(channel: MidiChannel, device: Seq<char>, tick: int, gate: int, notes: Seq<u8>, velocity: u8) -> Seq<
    EventView,
>
    decreases notes.len(),
{
    if notes.len() == 0 {
        Seq::empty()
    } else {
        chord_events(channel, device, tick, gate, notes.drop_last(), velocity) + note_pair(
            channel,
            device,
            tick,
            gate,
            notes.last(),
            velocity,
        )
    }
}

/// The note pairs of `notes` one after another, `step` ticks apart from
/// `tick` on.
pub open spec fn arp_events(
    channel: MidiChannel,
    device: Seq<char>,
    tick: int,
    step: int,
    gate: int,
    notes: Seq<u8>,
    velocity: u8,
) -> Seq<EventView>
    decreases notes.len(),
{
    if notes.len() == 0 {
        Seq::empty()
    } else {
        arp_events(channel, device, tick, step, gate, notes.drop_last(), velocity) + note_pair(
            channel,
            device,
            tick + (notes.len() - 1) * step,
            gate,
            notes.last(),
            velocity,
        )
    }
}

/// The events of a random arpeggio over `notes`: `count` steps, each
/// sounding every note at once (the player keeps one per loop).
pub open spec fn random_arp_events(
    channel: MidiChannel,
    device: Seq<char>,
    tick: int,
    step: int,
    gate: int,
    notes: Seq<u8>,
    velocity: u8,
    count: nat,
) -> Seq<EventView>
    decreases count,
{
    if count == 0 {
        Seq::empty()
    } else {
        random_arp_events(channel, device, tick, step, gate, notes, velocity, (count - 1) as nat) + chord_events(
            channel,
            device,
            tick + (count - 1) * step,
            gate,
            notes,
            velocity,
        )
    }
}

/// The candidates of one random step whose events start at `base`: note
/// `j`'s on and off events.
pub open spec fn step_candidates(base: int, n: nat) -> Seq<Seq<usize>> {
    Seq::new(n, |j: int| seq![(base + 2 * j) as usize, (base + 2 * j + 1) as usize])
}

/// The groups of a random arpeggio of `n` notes over `count` steps whose
/// events start at `base` (none when there is only one note).
pub open spec fn random_arp_groups(base: int, n: nat, count: nat) -> Seq<Seq<Seq<usize>>>
    decreases count,
{
    if count == 0 || n < 2 {
        Seq::empty()
    } else {
        random_arp_groups(base, n, (count - 1) as nat).push(step_candidates(base + 2 * n * (count - 1), n))
    }
}

/// Pushes a note-on at `tick` and its note-off `gate` ticks later.
pub fn push_note(events: &mut Vec<MidiEvent>, tick: u64, gate: u64, channel: MidiChannel, device: &str, note: u8, velocity: u8)
    requires
        tick + gate <= u64::MAX,
    ensures
        view_events(final(events)@) == view_events(old(events)@) + note_pair(channel, device@, tick as int, gate as int, note, velocity),
        final(events)@.len() == old(events)@.len() + 2,
{
    events.push(MidiEvent::new(tick, MidiMessage::NoteOn { channel, note, velocity }, device));
    events.push(MidiEvent::new(tick + gate, MidiMessage::NoteOff { channel, note, velocity: 0 }, device));
    assert(view_events(events@) =~= view_events(old(events)@) + note_pair(channel, device@, tick as int, gate as int, note, velocity));
}

/// Pushes the note pairs of `notes`, all starting at `tick`.
pub fn emit_chord(events: &mut Vec<MidiEvent>, tick: u64, gate: u64, channel: MidiChannel, device: &str, notes: &Vec<u8>, velocity: u8)
    requires
        tick + gate <= u64::MAX,
    ensures
        view_events(final(events)@) == view_events(old(events)@) + chord_events(
            channel,
            device@,
            tick as int,
            gate as int,
            notes@,
            velocity,
        ),
{
    let ghost base = view_events(events@);
    let mut k: usize = 0;
    assert(notes@.take(0) =~= Seq::<u8>::empty());
    assert(base + chord_events(channel, device@, tick as int, gate as int, notes@.take(0), velocity) =~= base);
    while k < notes.len()
        invariant
            tick + gate <= u64::MAX,
            k <= notes@.len(),
            view_events(events@) == base + chord_events(channel, device@, tick as int, gate as int, notes@.take(k as int), velocity),
        decreases notes@.len() - k,
    {
        push_note(events, tick, gate, channel, device, notes[k], velocity);
        proof {
            let t = notes@.take(k + 1);
            assert(t.drop_last() =~= notes@.take(k as int));
            assert(t.last() == notes@[k as int]);
        }
        k += 1;
    }
    assert(notes@.take(notes@.len() as int) =~= notes@);
}

/// Number of steps of one arpeggio cycle over `n` notes.
pub open spec fn arp_step_count(n: nat, direction: ArpeggioDirection) -> nat {
    if n >= 2 && direction is UpDown {
        (2 * n - 2) as nat
    } else {
        n
    }
}

/// A sorted list has as many notes as the list it was sorted from.
pub proof fn lemma_arpeggio_len(notes: Seq<u8>, direction: ArpeggioDirection)
    ensures
        arpeggio_sequence(notes, direction).len() == arp_step_count(notes.len(), direction),
{
    let le = crate::arpeggio::note_le();
    reveal(vstd::relations::total_ordering);
    notes.lemma_sort_by_ensures(le);
    vstd::seq_lib::to_multiset_len(notes);
    vstd::seq_lib::to_multiset_len(notes.sort_by(le));
}

/// The state after one arpeggio cycle: events, groups and tick.
pub open spec fn arp_outcome(
    channel: MidiChannel,
    device: Seq<char>,
    notes: Seq<u8>,
    direction: ArpeggioDirection,
    step: int,
    gate: int,
    tick: int,
    events: Seq<EventView>,
    groups: Seq<Seq<Seq<usize>>>,
    velocity: u8,
) -> (Seq<EventView>, Seq<Seq<Seq<usize>>>, int) {
    if notes.len() == 0 {
        (events, groups, tick)
    } else if direction is Random {
        (
            events + random_arp_events(channel, device, tick, step, gate, notes, velocity, notes.len()),
            groups + random_arp_groups(events.len() as int, notes.len(), notes.len()),
            tick + notes.len() * step,
        )
    } else {
        let order = arpeggio_sequence(notes, direction);
        (events + arp_events(channel, device, tick, step, gate, order, velocity), groups, tick + order.len() * step)
    }
}

/// Emits one cycle of an arpeggio over the chord tones `resolved_notes`
/// (written order) from `current_tick` on, `step_ticks` apart, each
/// sounding `gate_ticks` (a gate longer than a step overlaps the next
/// note); a random arpeggio lays every tone on every step and records one
/// choice group per step. See `arp_outcome`.
pub fn emit_arpeggio_cycle(
    resolved_notes: &Vec<u8>,
    direction: ArpeggioDirection,
    step_ticks: u64,
    gate_ticks: u64,
    channel: MidiChannel,
    device: &str,
    current_tick: &mut u64,
    events: &mut Vec<MidiEvent>,
    random_choice_groups: &mut Vec<RandomChoiceGroup>,
    velocity: u8,
)
    requires
        *old(current_tick) + arp_step_count(resolved_notes@.len(), direction) * step_ticks <= u64::MAX,
        arp_step_count(resolved_notes@.len(), direction) > 0 ==> *old(current_tick) + (arp_step_count(
            resolved_notes@.len(),
            direction,
        ) - 1) * step_ticks + gate_ticks <= u64::MAX,
    ensures
        ({
            let (evs, grs, t) = arp_outcome(
                channel,
                device@,
                resolved_notes@,
                direction,
                step_ticks as int,
                gate_ticks as int,
                *old(current_tick) as int,
                view_events(old(events)@),
                view_groups(old(random_choice_groups)@),
                velocity,
            );
            &&& view_events(final(events)@) == evs
            &&& view_groups(final(random_choice_groups)@) == grs
            &&& *final(current_tick) == t
        }),
{
    let n = resolved_notes.len();
    if n == 0 {
        return;
    }
    let ghost t0 = *current_tick as int;
    let ghost ev0 = view_events(events@);
    let ghost gr0 = view_groups(random_choice_groups@);
    if direction == ArpeggioDirection::Random {
        let base0 = events.len();
        let mut k: usize = 0;
        while k < n
            invariant
                n == resolved_notes@.len(),
                n > 0,
                k <= n,
                t0 + n * step_ticks <= u64::MAX,
                t0 + (n - 1) * step_ticks + gate_ticks <= u64::MAX,
                *current_tick == t0 + k * step_ticks,
                events@.len() == base0 + 2 * n * k,
                ev0.len() == base0,
                view_events(events@) == ev0 + random_arp_events(channel, device@, t0, step_ticks as int, gate_ticks as int, resolved_notes@, velocity, k as nat),
                view_groups(random_choice_groups@) == gr0 + random_arp_groups(base0 as int, n as nat, k as nat),
            decreases n - k,
        {
            proof {
                assert(k * step_ticks + step_ticks <= n * step_ticks) by (nonlinear_arith)
                    requires k < n;
                assert(k * step_ticks <= (n - 1) * step_ticks) by (nonlinear_arith)
                    requires k < n;
            }
            let step_base = events.len();
            let mut candidates: Vec<Vec<usize>> = Vec::new();
            let ghost before = view_events(events@);
            let mut j: usize = 0;
            while j < n
                invariant
                    n == resolved_notes@.len(),
                    j <= n,
                    k < n,
                    *current_tick + step_ticks <= u64::MAX,
                    *current_tick + gate_ticks <= u64::MAX,
                    step_base == base0 + 2 * n * k,
                    events@.len() == step_base + 2 * j,
                    view_events(events@) == before + chord_events(channel, device@, *current_tick as int, gate_ticks as int, resolved_notes@.take(j as int), velocity),
                    candidates@.len() == j,
                    forall|q: int| 0 <= q < j ==> (#[trigger] candidates@[q])@ == seq![(step_base + 2 * q) as usize, (step_base + 2 * q + 1) as usize],
                decreases n - j,
            {
                push_note(events, *current_tick, gate_ticks, channel, device, resolved_notes[j], velocity);
                let note_off_idx = events.len() - 1;
                let note_on_idx = events.len() - 2;
                let mut c: Vec<usize> = Vec::new();
                c.push(note_on_idx);
                c.push(note_off_idx);
                candidates.push(c);
                proof {
                    let t = resolved_notes@.take(j + 1);
                    assert(t.drop_last() =~= resolved_notes@.take(j as int));
                    assert(t.last() == resolved_notes@[j as int]);
                    assert(candidates@[j as int]@ =~= seq![(step_base + 2 * j) as usize, (step_base + 2 * j + 1) as usize]);
                }
                j += 1;
            }
            proof {
                assert(resolved_notes@.take(n as int) =~= resolved_notes@);
                assert(candidates@.map_values(|c: Vec<usize>| c@) =~= step_candidates(step_base as int, n as nat));
            }
            if n >= 2 {
                let ghost gpre = random_choice_groups@;
                let ghost cview = candidates@.map_values(|c: Vec<usize>| c@);
                random_choice_groups.push(RandomChoiceGroup { candidates });
                proof {
                    assert(random_choice_groups@ == gpre.push(RandomChoiceGroup { candidates }));
                    assert(view_groups(random_choice_groups@) =~= view_groups(gpre).push(cview));
                    assert(cview == step_candidates(step_base as int, n as nat));
                    assert(random_arp_groups(base0 as int, n as nat, (k + 1) as nat) == random_arp_groups(base0 as int, n as nat, k as nat).push(step_candidates(base0 + 2 * n * k, n as nat)));
                    assert(view_groups(random_choice_groups@) =~= gr0 + random_arp_groups(base0 as int, n as nat, (k + 1) as nat));
                }
            } else {
                proof {
                    assert(random_arp_groups(base0 as int, n as nat, (k + 1) as nat) == random_arp_groups(base0 as int, n as nat, k as nat));
                }
            }
            proof {
                assert(view_events(events@) =~= ev0 + random_arp_events(channel, device@, t0, step_ticks as int, gate_ticks as int, resolved_notes@, velocity, (k + 1) as nat));
                assert(events@.len() == base0 + 2 * n * (k + 1)) by (nonlinear_arith)
                    requires events@.len() == base0 + 2 * n * k + 2 * n;
                assert(t0 + k * step_ticks + step_ticks == t0 + (k + 1) * step_ticks) by (nonlinear_arith);
            }
            *current_tick = *current_tick + step_ticks;
            k += 1;
        }
    } else {
        let sequence = build_arpeggio_sequence(resolved_notes, direction);
        proof { lemma_arpeggio_len(resolved_notes@, direction); }
        let m = sequence.len();
        let mut k: usize = 0;
        assert(sequence@.take(0) =~= Seq::<u8>::empty());
        assert(ev0 + arp_events(channel, device@, t0, step_ticks as int, gate_ticks as int, sequence@.take(0), velocity) =~= ev0);
        while k < m
            invariant
                m == sequence@.len(),
                k <= m,
                t0 + m * step_ticks <= u64::MAX,
                m > 0 ==> t0 + (m - 1) * step_ticks + gate_ticks <= u64::MAX,
                *current_tick == t0 + k * step_ticks,
                view_events(events@) == ev0 + arp_events(channel, device@, t0, step_ticks as int, gate_ticks as int, sequence@.take(k as int), velocity),
                view_groups(random_choice_groups@) == gr0,
            decreases m - k,
        {
            proof {
                assert(k * step_ticks + step_ticks <= m * step_ticks) by (nonlinear_arith)
                    requires k < m;
                assert(k * step_ticks <= (m - 1) * step_ticks) by (nonlinear_arith)
                    requires k < m;
            }
            push_note(events, *current_tick, gate_ticks, channel, device, sequence[k], velocity);
            proof {
                let t = sequence@.take(k + 1);
                assert(t.drop_last() =~= sequence@.take(k as int));
                assert(t.last() == sequence@[k as int]);
                assert(t0 + k * step_ticks + step_ticks == t0 + (k + 1) * step_ticks) by (nonlinear_arith);
            }
            *current_tick = *current_tick + step_ticks;
            k += 1;
        }
        assert(sequence@.take(m as int) =~= sequence@);
    }
}

} // verus!
