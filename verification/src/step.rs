//! One tick of playback, as the driver loop runs it, in two parts. Before
//! sending (`step_plan`): the queued transport messages and All Notes Off,
//! the Timing Clock, an edit's forced session move and the commit of
//! staged clip swaps at a grid head, and the scene's events at the tick.
//! After every message went out (`finish_tick`): the counters move on and
//! a scene loop that ends there is handled.

use vstd::prelude::*;

use crate::domain::MidiChannel;
use crate::error::EngineError;
use crate::evaluator::{clips_committed, grid_advanced, loop_ended, tick_played, EvalModel, Evaluator};
use crate::midi::MidiMessage;
use crate::registry::{strictly_sorted, texts, transport_names, RegistryModel};
use crate::text::owned;
use crate::timing::{emits_timing_clock, grid_ticks, swap_grid, timing_clock_due, SceneTransitionOutcome, TickState};

verus! {

/// What one tick sends, and what the rest of the tick needs to know.
pub struct StepPlan {
    /// The messages to send, in order, each with its device.
    pub sends: Vec<(String, MidiMessage)>,
    /// Whether a scene played this tick.
    pub active: bool,
    /// The length of a loop of that scene, in ticks.
    pub scene_len: u64,
}

/// All Notes Off (controller 123, value 0) for each queued pair.
pub open spec fn off_sends(q: Seq<(String, MidiChannel)>) -> Seq<(String, MidiMessage)> {
    q.map_values(|p: (String, MidiChannel)| (p.0, MidiMessage::ControlChange { channel: p.1, cc: 123, value: 0 }))
}

/// A Timing Clock for each device.
pub open spec fn clock_sends(devs: Seq<String>) -> Seq<(String, MidiMessage)> {
    devs.map_values(|d: String| (d, MidiMessage::Clock))
}

/// The Timing Clock messages of a tick: one per transport device, in name
/// order, when one is due; none otherwise.
pub open spec fn clocks_for(due: bool, reg: RegistryModel, part: Seq<(String, MidiMessage)>) -> bool {
    if due {
        exists|devs: Seq<String>|
            strictly_sorted(texts(devs)) && texts(devs).to_set() == transport_names(reg.devices) && part == #[trigger] clock_sends(devs)
    } else {
        part.len() == 0
    }
}

/// The evaluator with both queues handed over.
pub open spec fn drained(m: EvalModel) -> EvalModel {
    EvalModel { all_notes_off: Seq::empty(), transport: Seq::empty(), ..m }
}

/// The counters at the start of a step: see `TickState::begin_step`.
pub open spec fn begun(t: TickState, active: bool) -> TickState {
    if !active {
        TickState { current_tick: 0, transport_tick: 0, was_active: false }
    } else if !t.was_active {
        TickState { current_tick: 0, transport_tick: 0, was_active: true }
    } else {
        t
    }
}

/// The counters at the end of a step: see `TickState::finish_step`.
pub open spec fn finished(t: TickState, active: bool) -> TickState {
    if active {
        TickState { current_tick: (t.current_tick + 1) as u64, transport_tick: (t.transport_tick + 1) as u64, ..t }
    } else {
        t
    }
}

/// The counters after a transition: see `TickState::apply_transition`.
pub open spec fn after_transition(t: TickState, o: SceneTransitionOutcome) -> TickState {
    if o is NextScene {
        TickState { current_tick: 0, ..t }
    } else {
        t
    }
}

/// At a grid head the staged clip swaps are committed (see
/// `clips_committed`); elsewhere nothing changes.
pub open spec fn commit_step(commit: bool, m: EvalModel, mk: EvalModel) -> bool {
    if commit {
        clips_committed(m, mk)
    } else {
        mk == m
    }
}

/// The rest of a step once any forced move is made, from counters `t` and
/// evaluator `m`, with `head` to be sent before the scene's events: the
/// counters start the step, staged clip swaps are committed at a grid
/// head, and the scene plays the tick (see `tick_played`).
pub open spec fn played_rest(
    t: TickState,
    m: EvalModel,
    head: Seq<(String, MidiMessage)>,
    t1: TickState,
    m1: EvalModel,
    r: Result<StepPlan, EngineError>,
) -> bool {
    let active = m.scene is Some;
    let tc = begun(t, active);
    let grid = grid_ticks(m.clock);
    let commit = active && grid > 0 && tc.transport_tick % grid == 0;
    &&& t1 == tc
    &&& exists|mk: EvalModel, rp: Result<(Vec<(String, MidiMessage)>, u64), EngineError>|
        #![trigger tick_played(mk, tc.current_tick, m1, rp)]
        commit_step(commit, m, mk) && tick_played(mk, tc.current_tick, m1, rp) && match rp {
            Err(e) => r == Err::<StepPlan, EngineError>(e),
            Ok((v, len)) => r matches Ok(plan) && plan.sends@ == head + v@ && plan.active == active && plan.scene_len == len,
        }
}

/// What `finish_tick` does, after every message of the step went out,
/// from counters `t0` and evaluator `m0`: without a scene nothing
/// changes; else the counters move on (a counter at `u64::MAX` is an
/// error) and, when a loop of `len` ticks ends there, the end of the loop
/// is handled (see `loop_ended`) and a new scene starts from its head.
pub open spec fn tick_finished(
    t0: TickState,
    m0: EvalModel,
    active: bool,
    len: u64,
    t1: TickState,
    m1: EvalModel,
    r: Result<Option<SceneTransitionOutcome>, EngineError>,
) -> bool {
    if !active {
        t1 == t0 && m1 == m0 && r == Ok::<Option<SceneTransitionOutcome>, EngineError>(None)
    } else if t0.current_tick == u64::MAX || t0.transport_tick == u64::MAX {
        t1 == t0 && m1 == m0 && (r matches Err(EngineError::Config(_)))
    } else {
        let td = finished(t0, true);
        if len > 0 && td.current_tick % len == 0 {
            match r {
                Ok(Some(o)) => loop_ended(m0, m1, Ok::<SceneTransitionOutcome, EngineError>(o)) && t1 == after_transition(td, o),
                Err(e) => loop_ended(m0, m1, Err::<SceneTransitionOutcome, EngineError>(e)) && t1 == td,
                Ok(None) => false,
            }
        } else {
            t1 == td && m1 == m0 && r == Ok::<Option<SceneTransitionOutcome>, EngineError>(None)
        }
    }
}

/// One step from counters `t0` and evaluator `m0`, with `clocks` the
/// Timing Clock messages of the tick (see `clocks_for`). The queued
/// transport messages, the clocks and All Notes Off for the queued pairs
/// are sent first, in that order, then the scene's events at the tick;
/// both queues are emptied. At a grid head of a scene that was already
/// playing, an edit's forced move is tried first (see `grid_advanced`);
/// an error there ends the step. The rest: see `played_rest`.
pub open spec fn step_done(
    t0: TickState,
    m0: EvalModel,
    clocks: Seq<(String, MidiMessage)>,
    t1: TickState,
    m1: EvalModel,
    r: Result<StepPlan, EngineError>,
) -> bool {
    let active = m0.scene is Some;
    let grid = grid_ticks(m0.clock);
    let ma = drained(m0);
    let head = m0.transport + clocks + off_sends(m0.all_notes_off);
    if t0.was_active && active && grid > 0 && t0.transport_tick % grid == 0 {
        exists|mb: EvalModel, rf: Result<SceneTransitionOutcome, EngineError>|
            #[trigger] grid_advanced(ma, mb, rf) && match rf {
                Err(e) => r == Err::<StepPlan, EngineError>(e) && m1 == mb && t1 == t0,
                Ok(o) => played_rest(after_transition(t0, o), mb, head, t1, m1, r),
            }
    } else {
        played_rest(t0, ma, head, t1, m1, r)
    }
}

/// All Notes Off messages for the queued pairs, in order.
fn all_off_messages(q: &Vec<(String, MidiChannel)>) -> (r: Vec<(String, MidiMessage)>)
    ensures
        r@ == off_sends(q@),
{
    let mut out: Vec<(String, MidiMessage)> = Vec::new();
    let mut i: usize = 0;
    while i < q.len()
        invariant
            i <= q@.len(),
            out@ == off_sends(q@.take(i as int)),
        decreases q@.len() - i,
    {
        let (d, ch) = &q[i];
        out.push((d.clone(), MidiMessage::ControlChange { channel: *ch, cc: 123, value: 0 }));
        proof {
            assert(q@.take(i + 1) =~= q@.take(i as int).push(q@[i as int]));
        }
        i += 1;
    }
    proof {
        assert(q@.take(q@.len() as int) =~= q@);
    }
    out
}

/// Plays the rest of a step once any forced move is made: see
/// `played_rest`.
fn play_rest(ticks: &mut TickState, ev: &mut Evaluator, head: Vec<(String, MidiMessage)>) -> (r: Result<StepPlan, EngineError>)
    requires
        old(ev).wf(),
    ensures
        final(ev).wf(),
        played_rest(*old(ticks), old(ev).model(), head@, *final(ticks), final(ev).model(), r),
{
    let ghost m = ev.model();
    let ghost t = *ticks;
    let active = ev.active_scene().is_some();
    let grid = swap_grid(&ev.clock_snapshot());
    let commit = ticks.begin_step(active, grid);
    assert(*ticks == begun(t, m.scene is Some));
    if commit {
        ev.commit_pending_clips();
    }
    let ghost mk = ev.model();
    let ghost tc = begun(t, m.scene is Some);
    let ghost cspec = (m.scene is Some) && grid_ticks(m.clock) > 0 && tc.transport_tick % grid_ticks(m.clock) == 0;
    assert(commit == cspec);
    assert(commit_step(cspec, m, mk));
    let rp = ev.play_tick(ticks.current_tick);
    let ghost mc = ev.model();
    assert(tick_played(mk, begun(t, m.scene is Some).current_tick, mc, rp));
    let (v, len) = match rp {
        Ok(x) => x,
        Err(e) => return Err(e),
    };
    let mut sends = head;
    let mut more = v;
    sends.append(&mut more);
    Ok(StepPlan { sends, active, scene_len: len })
}

/// What comes after every message of a step went out: see
/// `tick_finished`.
pub fn finish_tick(ticks: &mut TickState, ev: &mut Evaluator, active: bool, scene_len: u64) -> (r: Result<
    Option<SceneTransitionOutcome>,
    EngineError,
>)
    requires
        old(ev).wf(),
    ensures
        final(ev).wf(),
        tick_finished(*old(ticks), old(ev).model(), active, scene_len, *final(ticks), final(ev).model(), r),
{
    if !active {
        return Ok(None);
    }
    if ticks.current_tick == u64::MAX || ticks.transport_tick == u64::MAX {
        return Err(EngineError::Config(owned("tick counter overflow")));
    }
    let done = ticks.finish_step(active, scene_len);
    if !done {
        return Ok(None);
    }
    match ev.on_scene_loop_complete() {
        Ok(o) => {
            ticks.apply_transition(&o);
            Ok(Some(o))
        },
        Err(e) => Err(e),
    }
}

/// Plans one tick: see `step_done`. The driver sends `sends` in order,
/// then calls `finish_tick` with `active` and `scene_len`.
pub fn step_plan(ticks: &mut TickState, ev: &mut Evaluator) -> (r: Result<StepPlan, EngineError>)
    requires
        old(ev).wf(),
    ensures
        final(ev).wf(),
        exists|clocks: Seq<(String, MidiMessage)>|
            #[trigger] clocks_for(
                timing_clock_due(old(ev).model().scene is Some, old(ev).model().clock, old(ticks).current_tick),
                old(ev).model().registry,
                clocks,
            ) && step_done(*old(ticks), old(ev).model(), clocks, *final(ticks), final(ev).model(), r),
{
    let ghost m0 = ev.model();
    let ghost t0 = *ticks;
    let all_off = ev.take_pending_all_notes_off();
    let mut head = ev.take_pending_transport();
    let clock = ev.clock_snapshot();
    let active = ev.active_scene().is_some();
    let mut clocks: Vec<(String, MidiMessage)> = Vec::new();
    if emits_timing_clock(active, &clock, ticks.current_tick) {
        let devs = ev.transport_enabled_devices();
        let mut i: usize = 0;
        while i < devs.len()
            invariant
                i <= devs@.len(),
                clocks@ == clock_sends(devs@.take(i as int)),
            decreases devs@.len() - i,
        {
            clocks.push((devs[i].clone(), MidiMessage::Clock));
            proof {
                assert(devs@.take(i + 1) =~= devs@.take(i as int).push(devs@[i as int]));
            }
            i += 1;
        }
        proof {
            assert(devs@.take(devs@.len() as int) =~= devs@);
            assert(clocks_for(true, m0.registry, clocks@));
        }
    }
    let ghost cl = clocks@;
    assert(clocks_for(timing_clock_due(active, clock, t0.current_tick), m0.registry, cl));
    head.append(&mut clocks);
    let mut offs = all_off_messages(&all_off);
    head.append(&mut offs);
    let ghost ma = ev.model();
    assert(ma == drained(m0));
    assert(head@ == m0.transport + cl + off_sends(m0.all_notes_off));
    let grid = swap_grid(&clock);
    if ticks.at_forced_transition_grid(active, grid) {
        let rf = ev.try_force_advance_session_on_grid();
        let ghost mb = ev.model();
        assert(grid_advanced(ma, mb, rf));
        match rf {
            Ok(o) => {
                ticks.apply_transition(&o);
                play_rest(ticks, ev, head)
            },
            Err(e) => Err(e),
        }
    } else {
        play_rest(ticks, ev, head)
    }
}

} // verus!
