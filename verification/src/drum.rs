//! Compilation of drum clips: each row of hit symbols plays one kit
//! instrument, one step per `resolution` note value; rows with a
//! probability line put each gated step's note pair in a group that the
//! player rolls every loop.

use vstd::prelude::*;

use crate::ast::{DrumClipBody, DrumRow, HitSymbol, KitDef, KitInstrument};
use crate::cc::{automations_spec, compile_cc_automations};
use crate::clock::{duration_ticks_spec, tick_duration_spec, Clock};
use crate::compiler::{reports, CompileFailure, DrumProbabilityGroup, MidiEvent};
use crate::domain::{note_number, note_number_spec};
use crate::emit::{apply_min_gate_off, drum_velocity_spec, gate_ticks_spec, note_pair, push_note, resolve_drum_velocity, view_events, EventView};
use crate::error::EngineError;
use crate::pitched::{arith_error, arith_failure};
use crate::registry::{Registry, RegistryModel};
use crate::text::same_text;

verus! {

/// A drum probability group as values.
pub struct DrumGroupView {
    pub indices: Seq<usize>,
    pub probability: u8,
}

/// Drum probability groups as values.
pub open spec fn view_drum_groups(s: Seq<DrumProbabilityGroup>) -> Seq<DrumGroupView> {
    s.map_values(|g: DrumProbabilityGroup| DrumGroupView { indices: g.event_indices@, probability: g.probability })
}

/// Events and probability groups emitted so far.
pub struct DrumState {
    pub events: Seq<EventView>,
    pub groups: Seq<DrumGroupView>,
}

/// The first instrument of a kit with the given name.
pub open spec fn first_kit_instrument(insts: Seq<KitInstrument>, name: Seq<char>) -> Option<KitInstrument>
    decreases insts.len(),
{
    if insts.len() == 0 {
        None
    } else if insts[0].name@ == name {
        Some(insts[0])
    } else {
        first_kit_instrument(insts.drop_first(), name)
    }
}

/// The probability of step `i` of a row: none without a probability line
/// or past its end.
pub open spec fn step_probability(row: DrumRow, i: int) -> Option<u8> {
    match row.probability {
        Some(v) => if 0 <= i < v@.len() {
            Some(v@[i])
        } else {
            None
        },
        None => None,
    }
}

/// Gate percentage of a kit instrument (80 unless set).
pub open spec fn drum_gate_percent(ki: KitInstrument) -> u8 {
    match ki.gate_normal {
        Some(g) => g,
        None => 80,
    }
}

/// One step of a row: a rest or a zero velocity emits nothing; a hit
/// emits its note pair at `i` steps, and a probability below 100 puts the
/// pair in a group.
pub open spec fn hit_step(st: DrumState, ki: KitInstrument, device: Seq<char>, tps: int, gate: int, hit: HitSymbol, p: Option<u8>, i: int) -> DrumState {
    match drum_velocity_spec(hit, ki) {
        None => st,
        Some(v) => if v == 0 {
            st
        } else {
            let n = st.events.len();
            let note = note_number_spec(ki.note.name, ki.note.octave) as u8;
            DrumState {
                events: st.events + note_pair(ki.channel, device, i * tps, gate, note, v),
                groups: match p {
                    Some(q) => if q < 100 {
                        st.groups.push(DrumGroupView { indices: seq![n as usize, (n + 1) as usize], probability: q })
                    } else {
                        st.groups
                    },
                    None => st.groups,
                },
            }
        },
    }
}

/// The first `k` steps of a row.
pub open spec fn row_steps(st: DrumState, ki: KitInstrument, device: Seq<char>, tps: int, gate: int, row: DrumRow, k: int) -> DrumState
    decreases k,
{
    if k <= 0 {
        st
    } else {
        hit_step(
            row_steps(st, ki, device, tps, gate, row, k - 1),
            ki,
            device,
            tps,
            gate,
            row.hits@[k - 1],
            step_probability(row, k - 1),
            k - 1,
        )
    }
}

/// The first `k` rows, each played by the kit instrument of its name.
pub open spec fn drum_rows(kit: KitDef, tps: int, tick_us: int, rows: Seq<DrumRow>, k: int) -> Result<DrumState, CompileFailure>
    decreases k,
{
    if k <= 0 {
        Ok(DrumState { events: Seq::empty(), groups: Seq::empty() })
    } else {
        match drum_rows(kit, tps, tick_us, rows, k - 1) {
            Err(f) => Err(f),
            Ok(st) => match first_kit_instrument(kit.instruments@, rows[k - 1].instrument@) {
                None => Err(CompileFailure::UnknownInstrument(rows[k - 1].instrument@)),
                Some(ki) => Ok(
                    row_steps(
                        st,
                        ki,
                        kit.device@,
                        tps,
                        gate_ticks_spec(tps, drum_gate_percent(ki), tick_us),
                        rows[k - 1],
                        rows[k - 1].hits@.len() as int,
                    ),
                ),
            },
        }
    }
}

/// The longest row of the first `k` rows, in steps.
pub open spec fn max_hits(rows: Seq<DrumRow>, k: int) -> nat
    decreases k,
{
    if k <= 0 {
        0
    } else {
        let m = max_hits(rows, k - 1);
        if rows[k - 1].hits@.len() > m {
            rows[k - 1].hits@.len()
        } else {
            m
        }
    }
}

/// A compiled drum body: the rows' events followed by the CC automation
/// events, the probability groups, and the musical end (longest row times
/// the step length).
pub open spec fn drum_spec(reg: RegistryModel, clock: Clock, bars: Option<u32>, body: DrumClipBody) -> Result<(DrumState, int), CompileFailure> {
    if !reg.kits.contains_key(body.kit@) {
        Err(CompileFailure::UnknownKit(body.kit@))
    } else if body.resolution == 0 {
        Err(CompileFailure::Message(arith_failure()))
    } else {
        let kit = reg.kits[body.kit@];
        let tps = duration_ticks_spec(clock.ppq_spec(), body.resolution as int, false);
        let end = max_hits(body.rows@, body.rows@.len() as int) * tps;
        if end > u64::MAX {
            Err(CompileFailure::Message(arith_failure()))
        } else {
            match drum_rows(kit, tps, tick_duration_spec(clock.bpm_spec(), clock.ppq_spec()), body.rows@, body.rows@.len() as int) {
                Err(f) => Err(f),
                Ok(st) => match automations_spec(reg, clock, bars, body.cc_automations@, body.cc_automations@.len() as int) {
                    Err(f) => Err(f),
                    Ok(cc) => Ok((DrumState { events: st.events + cc, groups: st.groups }, end)),
                },
            }
        }
    }
}

/// A row's steps only append events and groups.
proof fn lemma_row_steps_grow(st: DrumState, ki: KitInstrument, device: Seq<char>, tps: int, gate: int, row: DrumRow, k: int)
    ensures
        row_steps(st, ki, device, tps, gate, row, k).events.len() >= st.events.len(),
    decreases k,
{
    if k > 0 {
        lemma_row_steps_grow(st, ki, device, tps, gate, row, k - 1);
    }
}

/// Every row of the first `k` is at most `max_hits` long.
proof fn lemma_max_hits(rows: Seq<DrumRow>, j: int, k: int)
    requires
        0 <= j < k <= rows.len(),
    ensures
        rows[j].hits@.len() <= max_hits(rows, k),
        max_hits(rows, k - 1) <= max_hits(rows, k),
    decreases k,
{
    if j < k - 1 {
        lemma_max_hits(rows, j, k - 1);
    }
}

/// Once a prefix of the rows fails, all of them fail the same.
proof fn lemma_drum_rows_err(kit: KitDef, tps: int, tick_us: int, rows: Seq<DrumRow>, i: int, n: int)
    requires
        0 <= i <= n,
        drum_rows(kit, tps, tick_us, rows, i) is Err,
    ensures
        drum_rows(kit, tps, tick_us, rows, n) == drum_rows(kit, tps, tick_us, rows, i),
    decreases n - i,
{
    if i < n {
        lemma_drum_rows_err(kit, tps, tick_us, rows, i, n - 1);
    }
}

/// The first instrument of the kit with the given name.
fn find_kit_instrument<'a>(insts: &'a Vec<KitInstrument>, name: &str) -> (r: Option<&'a KitInstrument>)
    ensures
        match first_kit_instrument(insts@, name@) {
            Some(ki) => r matches Some(x) && *x == ki,
            None => r is None,
        },
{
    let mut i: usize = 0;
    assert(insts@.skip(0) =~= insts@);
    while i < insts.len()
        invariant
            i <= insts@.len(),
            first_kit_instrument(insts@, name@) == first_kit_instrument(insts@.skip(i as int), name@),
        decreases insts@.len() - i,
    {
        assert(insts@.skip(i as int)[0] == insts@[i as int]);
        assert(insts@.skip(i as int).drop_first() =~= insts@.skip(i + 1));
        if same_text(&insts[i].name, name) {
            return Some(&insts[i]);
        }
        i += 1;
    }
    assert(insts@.skip(i as int).len() == 0);
    None
}

/// The longest row, in steps.
fn longest_row(rows: &Vec<DrumRow>) -> (r: usize)
    ensures
        r == max_hits(rows@, rows@.len() as int),
{
    let mut m: usize = 0;
    let mut i: usize = 0;
    while i < rows.len()
        invariant
            i <= rows@.len(),
            m == max_hits(rows@, i as int),
        decreases rows@.len() - i,
    {
        if rows[i].hits.len() > m {
            m = rows[i].hits.len();
        }
        i += 1;
    }
    m
}

/// Plays the steps of one row onto the events and groups.
fn compile_row(
    row: &DrumRow,
    ki: &KitInstrument,
    device: &str,
    tps: u64,
    gate: u64,
    events: &mut Vec<MidiEvent>,
    groups: &mut Vec<DrumProbabilityGroup>,
)
    requires
        gate <= tps,
        row.hits@.len() * tps <= u64::MAX,
    ensures
        row_steps(
            DrumState { events: view_events(old(events)@), groups: view_drum_groups(old(groups)@) },
            *ki,
            device@,
            tps as int,
            gate as int,
            *row,
            row.hits@.len() as int,
        ) == (DrumState { events: view_events(final(events)@), groups: view_drum_groups(final(groups)@) }),
{
    let note = note_number(ki.note.name, ki.note.octave);
    let ghost start = DrumState { events: view_events(events@), groups: view_drum_groups(groups@) };
    let mut i: usize = 0;
    while i < row.hits.len()
        invariant
            i <= row.hits@.len(),
            gate <= tps,
            row.hits@.len() * tps <= u64::MAX,
            note == note_number_spec(ki.note.name, ki.note.octave),
            row_steps(start, *ki, device@, tps as int, gate as int, *row, i as int) == (DrumState {
                events: view_events(events@),
                groups: view_drum_groups(groups@),
            }),
        decreases row.hits@.len() - i,
    {
        let ghost pre = DrumState { events: view_events(events@), groups: view_drum_groups(groups@) };
        let hit = &row.hits[i];
        let v = match resolve_drum_velocity(hit, ki) {
            Some(v) => v,
            None => 0,
        };
        if v != 0 {
            proof {
                assert((i as int + 1) * (tps as int) <= (row.hits@.len() as int) * (tps as int)) by (nonlinear_arith)
                    requires
                        i < row.hits@.len(),
                ;
                assert((i as int + 1) * (tps as int) == (i as int) * (tps as int) + tps) by (nonlinear_arith);
            }
            let tick = (i as u64) * tps;
            let on_idx = events.len();
            push_note(events, tick, gate, ki.channel, device, note, v);
            let p: Option<u8> = match &row.probability {
                Some(probs) => if i < probs.len() {
                    Some(probs[i])
                } else {
                    None
                },
                None => None,
            };
            assert(p == step_probability(*row, i as int));
            match p {
                Some(q) => {
                    if q < 100 {
                        let ghost g0 = groups@;
                        let off_idx = events.len() - 1;
                        let idx = vec![on_idx, off_idx];
                        groups.push(DrumProbabilityGroup { event_indices: idx, probability: q });
                        assert(view_drum_groups(groups@) =~= view_drum_groups(g0).push(
                            DrumGroupView { indices: seq![on_idx, (on_idx + 1) as usize], probability: q },
                        ));
                    }
                },
                None => {},
            }
            assert(view_events(events@) =~= pre.events + note_pair(
                ki.channel,
                device@,
                (i as int) * (tps as int),
                gate as int,
                note,
                v,
            ));
        }
        i += 1;
    }
}

/// Compiles a drum body: the events of its rows, then of its CC automation
/// lines, the probability groups, and the musical end tick.
pub fn compile_drum(body: &DrumClipBody, clock: &Clock, registry: &Registry, bars: Option<u32>) -> (r: Result<
    (Vec<MidiEvent>, Vec<DrumProbabilityGroup>, u64),
    EngineError,
>)
    requires
        registry.wf(),
    ensures
        match drum_spec(registry@, *clock, bars, *body) {
            Ok((st, end)) => r matches Ok((evs, groups, e)) && view_events(evs@) == st.events && view_drum_groups(groups@)
                == st.groups && e == end,
            Err(f) => r matches Err(err) && reports(err, f),
        },
{
    let kit = match registry.get_kit(body.kit.as_str()) {
        Some(k) => k,
        None => return Err(EngineError::UnknownKit(body.kit.clone())),
    };
    if body.resolution == 0 {
        return Err(arith_error());
    }
    let tps = clock.duration_to_ticks(body.resolution, false);
    let longest = longest_row(&body.rows);
    proof {
        assert((longest as int) * (tps as int) <= 0xffff_ffff_ffff_ffff * (0xffff * 6)) by (nonlinear_arith)
            requires
                longest <= 0xffff_ffff_ffff_ffff,
                tps <= 0xffff * 6,
        ;
    }
    let end128: u128 = (longest as u128) * (tps as u128);
    if end128 > u64::MAX as u128 {
        return Err(arith_error());
    }
    let end = end128 as u64;
    let ghost tick_us = tick_duration_spec(clock.bpm_spec(), clock.ppq_spec());
    let ghost rows = body.rows@;
    let mut events: Vec<MidiEvent> = Vec::new();
    let mut groups: Vec<DrumProbabilityGroup> = Vec::new();
    assert(view_events(events@) =~= Seq::<EventView>::empty());
    assert(view_drum_groups(groups@) =~= Seq::<DrumGroupView>::empty());
    let mut i: usize = 0;
    while i < body.rows.len()
        invariant
            rows == body.rows@,
            i <= rows.len(),
            registry.wf(),
            registry@.kits.contains_key(body.kit@),
            *kit == registry@.kits[body.kit@],
            body.resolution > 0,
            end <= u64::MAX,
            tps == duration_ticks_spec(clock.ppq_spec(), body.resolution as int, false),
            tps <= 0xffff * 6,
            end == max_hits(rows, rows.len() as int) * tps,
            tick_us == tick_duration_spec(clock.bpm_spec(), clock.ppq_spec()),
            drum_rows(*kit, tps as int, tick_us, rows, i as int) == Ok::<DrumState, CompileFailure>(
                DrumState { events: view_events(events@), groups: view_drum_groups(groups@) },
            ),
        decreases rows.len() - i,
    {
        let row = &body.rows[i];
        let ki = match find_kit_instrument(&kit.instruments, row.instrument.as_str()) {
            Some(k) => k,
            None => {
                proof {
                    assert(drum_rows(*kit, tps as int, tick_us, rows, i + 1) == Err::<DrumState, CompileFailure>(
                        CompileFailure::UnknownInstrument(rows[i as int].instrument@),
                    ));
                    lemma_drum_rows_err(*kit, tps as int, tick_us, rows, i + 1, rows.len() as int);
                }
                return Err(EngineError::UnknownInstrument(row.instrument.clone()));
            },
        };
        let percent = match ki.gate_normal {
            Some(g) => g,
            None => 80,
        };
        proof {
            assert(tps * (percent as int) <= u64::MAX) by (nonlinear_arith)
                requires
                    tps <= 0xffff * 6,
                    percent <= 255,
            ;
        }
        let gate = apply_min_gate_off(tps, percent, clock);
        proof {
            lemma_max_hits(rows, i as int, rows.len() as int);
            assert((row.hits@.len() as int) * (tps as int) <= (max_hits(rows, rows.len() as int) as int) * (tps as int)) by (nonlinear_arith)
                requires
                    row.hits@.len() <= max_hits(rows, rows.len() as int),
            ;
        }
        compile_row(row, ki, kit.device.as_str(), tps, gate, &mut events, &mut groups);
        i += 1;
    }
    let mut cc = match compile_cc_automations(&body.cc_automations, clock, registry, bars) {
        Ok(c) => c,
        Err(e) => return Err(e),
    };
    let ghost pre = view_events(events@);
    let ghost more = view_events(cc@);
    events.append(&mut cc);
    assert(view_events(events@) =~= pre + more);
    Ok((events, groups, end))
}

} // verus!
