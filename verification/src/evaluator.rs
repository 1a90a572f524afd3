//! The evaluator: it holds the registered definitions, the variable
//! scopes, the clock, the playing scene, the playback state and the queues
//! for the playback driver, and evaluates blocks one at a time.
//!
//! The decisions of the playback state machine at the end of a scene loop
//! (play the scene again, move to the session's next entry, stop) are
//! handed in as a `NextAction`; everything they lead to is carried out
//! here.

use vstd::prelude::*;

use rand::rngs::StdRng;

use crate::ast::{Block, RepeatSpec, SessionEntry};
use crate::chance::fresh_rng;
use crate::clock::Clock;
use crate::commands::{clip_update_done, eval_play, eval_stop, play_done, scene_redefined, session_redefined, stop_done, update_playing_clip};
use crate::connections::DeviceConnectionErrors;
use crate::control::{
    eval_mute, eval_pause, eval_resume, eval_unmute, lemma_mute_live, lemma_pause_live, lemma_resume_live, lemma_unmute_live,
    live_scene, mute_outcome, names_current, pause_outcome, resume_outcome,
    unmute_outcome, PlaybackView, StateChange,
};
use crate::domain::MidiChannel;
use crate::error::EngineError;
use crate::evaluation::{definition_outcome, eval_definition, EvalResult};
use crate::midi::MidiMessage;
use crate::player::{routed, scene_advanced, scene_committed, scene_events, scene_length, ScenePlayer};
use crate::registry::{strictly_sorted, texts, transport_names, Registry, RegistryModel};
use crate::scope::ScopeChain;
use crate::text::owned;
use crate::timing::{DeviceConnectionError, SceneTransitionOutcome};
use crate::scene_build::built_for;
use crate::run::{acts, check_next_entry, decide_loop_end, force_next_entry, forced_next, fresh_progress, has_next_entry, loop_end, new_progress, Decision};
use crate::transitions::{action_carried_out, tempo_applied, tempo_due, NextAction};

verus! {

/// The playback state after the change `c`.
pub open spec fn changed_view(v: PlaybackView, c: StateChange) -> PlaybackView {
    match c {
        StateChange::Keep => v,
        StateChange::PlayScene { name, repeat } => PlaybackView {
            playing: true,
            paused: false,
            current: Some(name),
            session: false,
            repeat,
            progress: fresh_progress(),
        },
        StateChange::PlaySession { name, repeat } => PlaybackView {
            playing: true,
            paused: false,
            current: Some(name),
            session: true,
            repeat,
            progress: fresh_progress(),
        },
        StateChange::Stop(_) => stopped_view(v),
        StateChange::Pause(_) => PlaybackView { playing: false, paused: true, ..v },
        StateChange::Resume(_) => PlaybackView { playing: true, paused: false, ..v },
    }
}

/// Nothing plays.
pub open spec fn stopped_view(v: PlaybackView) -> PlaybackView {
    PlaybackView { playing: false, paused: false, current: None, session: false, progress: fresh_progress(), ..v }
}

/// Applies a change to the playback state.
pub fn apply_change(view: &mut PlaybackView, c: StateChange)
    ensures
        *final(view) == changed_view(*old(view), c),
{
    match c {
        StateChange::Keep => {},
        StateChange::PlayScene { name, repeat } => {
            *view = PlaybackView { playing: true, paused: false, current: Some(name), session: false, repeat, progress: new_progress() };
        },
        StateChange::PlaySession { name, repeat } => {
            *view = PlaybackView { playing: true, paused: false, current: Some(name), session: true, repeat, progress: new_progress() };
        },
        StateChange::Stop(_) => stop_view(view),
        StateChange::Pause(_) => {
            view.playing = false;
            view.paused = true;
        },
        StateChange::Resume(_) => {
            view.playing = true;
            view.paused = false;
        },
    }
}

/// Nothing plays any more.
fn stop_view(view: &mut PlaybackView)
    ensures
        *final(view) == stopped_view(*old(view)),
{
    view.playing = false;
    view.paused = false;
    view.current = None;
    view.session = false;
    view.progress = new_progress();
}

/// The playback state after an end-of-loop outcome: playback ends with the
/// scene or the session.
pub open spec fn view_after(v: PlaybackView, r: Result<SceneTransitionOutcome, EngineError>) -> PlaybackView {
    match r {
        Ok(SceneTransitionOutcome::SceneComplete) => stopped_view(v),
        Ok(SceneTransitionOutcome::SessionComplete) => stopped_view(v),
        _ => v,
    }
}

/// The entries of the session that plays, if any.
pub open spec fn session_entries(reg: RegistryModel, v: PlaybackView) -> Seq<SessionEntry> {
    if v.session && v.current is Some && reg.sessions.contains_key(v.current->Some_0@) {
        reg.sessions[v.current->Some_0@].entries@
    } else {
        Seq::empty()
    }
}

/// Everything an evaluator holds, as values.
pub struct EvalModel {
    pub registry: RegistryModel,
    pub scopes: Seq<Map<Seq<char>, String>>,
    pub clock: Clock,
    pub view: PlaybackView,
    pub scene: Option<ScenePlayer>,
    pub scene_name: Option<String>,
    pub all_notes_off: Seq<(String, MidiChannel)>,
    pub transport: Seq<(String, MidiMessage)>,
    pub force: bool,
    pub errors: Map<Seq<char>, DeviceConnectionError>,
}

/// `m1` holds the same playback as `m0`: scene, queues, state and request.
pub open spec fn same_playback(m0: EvalModel, m1: EvalModel) -> bool {
    &&& m1.view == m0.view
    &&& m1.scene == m0.scene
    &&& m1.scene_name == m0.scene_name
    &&& m1.all_notes_off == m0.all_notes_off
    &&& m1.transport == m0.transport
    &&& m1.force == m0.force
    &&& m1.errors == m0.errors
}

/// `m1` holds the same definitions, scopes and clock as `m0`.
pub open spec fn same_definitions(m0: EvalModel, m1: EvalModel) -> bool {
    &&& m1.registry == m0.registry
    &&& m1.scopes == m0.scopes
    &&& m1.clock == m0.clock
    &&& m1.errors == m0.errors
}

/// What evaluating `block` does, and what it reports.
pub open spec fn block_outcome(m0: EvalModel, block: Block, r: Result<EvalResult, EngineError>, m1: EvalModel) -> bool {
    match block {
        Block::Play(cmd) => {
            &&& same_definitions(m0, m1)
            &&& m1.all_notes_off == m0.all_notes_off && m1.force == m0.force
            &&& exists|rp: Result<(EvalResult, StateChange), EngineError>|
                #[trigger] play_done(
                    m0.registry,
                    m0.clock,
                    m0.scene,
                    m1.scene,
                    m0.scene_name,
                    m1.scene_name,
                    m0.transport,
                    m1.transport,
                    cmd,
                    rp,
                ) && match rp {
                    Ok((res, c)) => r == Ok::<EvalResult, EngineError>(res) && m1.view == changed_view(m0.view, c),
                    Err(e) => r == Err::<EvalResult, EngineError>(e) && m1.view == m0.view,
                }
        },
        Block::Stop(cmd) => {
            &&& same_definitions(m0, m1)
            &&& m1.force == m0.force
            &&& exists|rs: (EvalResult, StateChange)|
                #[trigger] stop_done(
                    m0.registry,
                    m0.scene,
                    m1.scene,
                    m0.scene_name,
                    m1.scene_name,
                    m0.all_notes_off,
                    m1.all_notes_off,
                    m0.transport,
                    m1.transport,
                    m0.view,
                    cmd,
                    rs,
                ) && r == Ok::<EvalResult, EngineError>(rs.0) && m1.view == changed_view(m0.view, rs.1)
        },
        Block::Pause(cmd) => {
            &&& same_definitions(m0, m1)
            &&& m1.scene_name == m0.scene_name && m1.transport == m0.transport && m1.force == m0.force
            &&& exists|rp: (EvalResult, StateChange)|
                #[trigger] pause_outcome(m0.scene, m1.scene, m0.all_notes_off, m1.all_notes_off, m0.view, cmd, rp) && r == Ok::<
                    EvalResult,
                    EngineError,
                >(rp.0) && m1.view == changed_view(m0.view, rp.1)
        },
        Block::Resume(cmd) => {
            &&& same_definitions(m0, m1)
            &&& m1.scene_name == m0.scene_name && m1.transport == m0.transport && m1.force == m0.force
            &&& m1.all_notes_off == m0.all_notes_off
            &&& exists|rp: (EvalResult, StateChange)|
                #[trigger] resume_outcome(m0.scene, m1.scene, m0.view, cmd, rp) && r == Ok::<EvalResult, EngineError>(rp.0)
                    && m1.view == changed_view(m0.view, rp.1)
        },
        Block::Mute(cmd) => {
            &&& same_definitions(m0, m1)
            &&& m1.view == m0.view && m1.scene_name == m0.scene_name && m1.transport == m0.transport && m1.force == m0.force
            &&& r matches Ok(rm) && mute_outcome(m0.scene, m1.scene, m0.all_notes_off, m1.all_notes_off, cmd, rm)
        },
        Block::Unmute(cmd) => {
            &&& same_definitions(m0, m1)
            &&& m1.view == m0.view && m1.scene_name == m0.scene_name && m1.transport == m0.transport && m1.force == m0.force
            &&& m1.all_notes_off == m0.all_notes_off
            &&& r matches Ok(rm) && unmute_outcome(m0.scene, m1.scene, cmd, rm)
        },
        Block::Clip(c) => {
            &&& m1.registry == m0.registry.register(block) && m1.scopes == m0.scopes && m1.clock == m0.clock
            &&& m1.errors == m0.errors
            &&& m1.view == m0.view && m1.scene_name == m0.scene_name && m1.all_notes_off == m0.all_notes_off
            &&& m1.transport == m0.transport
            &&& exists|ru: Result<(), EngineError>|
                #[trigger] clip_update_done(m1.registry, m0.clock, m0.scene, m1.scene, c.name@, m0.view, m0.force, m1.force, ru)
                    && match ru {
                    Ok(_) => r matches Ok(EvalResult::Registered { kind, name }) && kind@ == "Clip"@ && name@ == c.name@,
                    Err(e) => r == Err::<EvalResult, EngineError>(e),
                }
        },
        Block::Scene(sc) => {
            &&& definition_outcome(m0.registry, m0.scopes, m0.clock, block, Some(r), m1.registry, m1.scopes, m1.clock)
            &&& m1.errors == m0.errors
            &&& m1.view == m0.view && m1.scene == m0.scene && m1.scene_name == m0.scene_name
            &&& m1.all_notes_off == m0.all_notes_off && m1.transport == m0.transport
            &&& m1.force == (m0.force || (m0.scene_name matches Some(n) && n@ == sc.name@ && m0.view.playing && m0.view.session))
        },
        Block::Session(se) => {
            &&& definition_outcome(m0.registry, m0.scopes, m0.clock, block, Some(r), m1.registry, m1.scopes, m1.clock)
            &&& m1.errors == m0.errors
            &&& m1.view == m0.view && m1.scene == m0.scene && m1.scene_name == m0.scene_name
            &&& m1.all_notes_off == m0.all_notes_off && m1.transport == m0.transport
            &&& m1.force == (m0.force || (m0.view.playing && m0.view.session && names_current(m0.view, se.name@)))
        },
        _ => {
            &&& definition_outcome(m0.registry, m0.scopes, m0.clock, block, Some(r), m1.registry, m1.scopes, m1.clock)
            &&& same_playback(m0, m1)
        },
    }
}

/// What `commit_pending_clips` does: the scene that plays, if any, swaps
/// in every staged clip; nothing else changes.
pub open spec fn clips_committed(m0: EvalModel, m1: EvalModel) -> bool {
    match m0.scene {
        None => m1 == m0,
        Some(s0) => (m1.scene matches Some(s1) && scene_committed(s0, s1)) && m1 == (EvalModel { scene: m1.scene, ..m0 }),
    }
}

/// What `play_tick` at `tick` does: see there.
pub open spec fn tick_played(m0: EvalModel, tick: u64, m1: EvalModel, r: Result<(Vec<(String, MidiMessage)>, u64), EngineError>) -> bool {
    match m0.scene {
        None => m1 == m0 && (r matches Ok((v, n)) && v@.len() == 0 && n == 0),
        Some(s0) => if !(forall|i: int| 0 <= i < s0.players_spec().len() ==> (#[trigger] s0.players_spec()[i]).1.can_advance(1)) {
            m1 == m0 && (r matches Err(EngineError::Config(_)))
        } else {
            &&& m1.scene matches Some(s1) && scene_advanced(s0, s1, 1) && match r {
                Ok((v, n)) => scene_length(s1.players_spec()) <= u64::MAX && n == scene_length(s1.players_spec())
                    && v@ == routed(scene_events(s0.players_spec(), tick, s0.players_spec().len() as int)),
                Err(e) => scene_length(s1.players_spec()) > u64::MAX && e is Config,
            }
            &&& m1 == (EvalModel { scene: m1.scene, ..m0 })
        },
    }
}

/// What `on_scene_loop_complete` does: see there.
pub open spec fn loop_ended(m0: EvalModel, m1: EvalModel, r: Result<SceneTransitionOutcome, EngineError>) -> bool {
    let entries = session_entries(m0.registry, m0.view);
    let (d, p) = loop_end(m0.view.session, m0.view.repeat, m0.view.progress, entries);
    &&& tempo_applied(m0.clock, m1.clock, tempo_due(m0.registry, m0.scene_name))
    &&& exists|a: NextAction|
        #[trigger] acts(d, entries, a) && action_carried_out(
            m0.registry,
            m1.clock,
            a,
            m0.scene,
            m1.scene,
            m0.scene_name,
            m1.scene_name,
            r,
        )
    &&& m1.view == view_after(PlaybackView { progress: p, ..m0.view }, r)
    &&& m1.registry == m0.registry && m1.scopes == m0.scopes && m1.all_notes_off == m0.all_notes_off
    &&& m1.transport == m0.transport && m1.force == m0.force && m1.errors == m0.errors
}

/// What `try_force_advance_session_on_grid` does: see there.
pub open spec fn grid_advanced(m0: EvalModel, m1: EvalModel, r: Result<SceneTransitionOutcome, EngineError>) -> bool {
    let entries = session_entries(m0.registry, m0.view);
    if !m0.force {
        r == Ok::<SceneTransitionOutcome, EngineError>(SceneTransitionOutcome::Continue) && m1 == m0
    } else if has_next_entry(m0.view.repeat, m0.view.progress, entries) {
        let (i, p) = forced_next(m0.view.progress, entries);
        &&& exists|a: NextAction|
            #[trigger] acts(Decision::Entry(i), entries, a) && action_carried_out(
                m0.registry,
                m0.clock,
                a,
                m0.scene,
                m1.scene,
                m0.scene_name,
                m1.scene_name,
                r,
            )
        &&& m1.view == view_after(PlaybackView { progress: p, ..m0.view }, r)
        &&& m1.registry == m0.registry && m1.scopes == m0.scopes && m1.clock == m0.clock
        &&& m1.all_notes_off == m0.all_notes_off && m1.transport == m0.transport && m1.errors == m0.errors
    } else {
        &&& match m0.scene_name {
            Some(n) if m0.registry.scenes.contains_key(n@) => exists|b: Result<ScenePlayer, EngineError>|
                #[trigger] built_for(m0.registry, m0.clock, m0.registry.scenes[n@], b) && match b {
                    Ok(p) => r == Ok::<SceneTransitionOutcome, EngineError>(SceneTransitionOutcome::Continue)
                        && m1.scene == Some(p),
                    Err(e) => r == Err::<SceneTransitionOutcome, EngineError>(e) && m1.scene == m0.scene,
                },
            _ => r == Ok::<SceneTransitionOutcome, EngineError>(SceneTransitionOutcome::Continue)
                && m1.scene == m0.scene,
        }
        &&& m1 == (EvalModel { scene: m1.scene, force: false, ..m0 })
    }
}

/// The engine's evaluator.
pub struct Evaluator {
    registry: Registry,
    scope: ScopeChain,
    clock: Clock,
    state: PlaybackView,
    active_scene: Option<ScenePlayer>,
    active_scene_name: Option<String>,
    pending_all_notes_off: Vec<(String, MidiChannel)>,
    pending_transport: Vec<(String, MidiMessage)>,
    device_connection_errors: DeviceConnectionErrors,
    force_scene_advance_on_grid: bool,
    rng: StdRng,
}

impl Evaluator {
    /// Everything the evaluator holds.
    pub closed spec fn model(&self) -> EvalModel {
        EvalModel {
            registry: self.registry@,
            scopes: self.scope@,
            clock: self.clock,
            view: self.state,
            scene: self.active_scene,
            scene_name: self.active_scene_name,
            all_notes_off: self.pending_all_notes_off@,
            transport: self.pending_transport@,
            force: self.force_scene_advance_on_grid,
            errors: self.device_connection_errors.view(),
        }
    }

    /// The tables and the playing scene are well formed.
    pub closed spec fn wf(&self) -> bool {
        &&& self.registry.wf()
        &&& self.scope.wf()
        &&& live_scene(self.active_scene)
        &&& self.device_connection_errors.wf()
    }

    /// An evaluator at `bpm` with nothing registered and nothing playing.
    pub fn new(bpm: i64) -> (r: Evaluator)
        ensures
            r.wf(),
            r.model().registry.is_empty(),
            r.model().scopes == seq![Map::<Seq<char>, String>::empty()],
            r.model().clock.bpm_spec() == bpm,
            !r.model().view.playing && !r.model().view.paused && r.model().view.current is None,
            r.model().scene is None && r.model().scene_name is None,
            r.model().all_notes_off.len() == 0 && r.model().transport.len() == 0,
            !r.model().force,
            r.model().errors == Map::<Seq<char>, DeviceConnectionError>::empty(),
    {
        Evaluator {
            registry: Registry::new(),
            scope: ScopeChain::new(),
            clock: Clock::new(bpm),
            state: PlaybackView {
                playing: false,
                paused: false,
                current: None,
                session: false,
                repeat: RepeatSpec::Once,
                progress: new_progress(),
            },
            active_scene: None,
            active_scene_name: None,
            pending_all_notes_off: Vec::new(),
            pending_transport: Vec::new(),
            device_connection_errors: DeviceConnectionErrors::new(),
            force_scene_advance_on_grid: false,
            rng: fresh_rng(),
        }
    }

    /// Records that the port `port` of the device `name` could not be
    /// opened; replaces an earlier entry.
    pub fn record_device_connection_error(&mut self, name: String, port: String, message: String)
        requires
            old(self).wf(),
        ensures
            final(self).wf(),
            final(self).model() == (EvalModel {
                errors: old(self).model().errors.insert(name@, DeviceConnectionError { port, message }),
                ..old(self).model()
            }),
    {
        let mut errors = DeviceConnectionErrors::new();
        std::mem::swap(&mut errors, &mut self.device_connection_errors);
        errors.record_device_connection_error(name, port, message);
        self.device_connection_errors = errors;
    }

    /// Clears the entry of the device `name`.
    pub fn clear_device_connection_error(&mut self, name: &str)
        requires
            old(self).wf(),
        ensures
            final(self).wf(),
            final(self).model() == (EvalModel { errors: old(self).model().errors.remove(name@), ..old(self).model() }),
    {
        let mut errors = DeviceConnectionErrors::new();
        std::mem::swap(&mut errors, &mut self.device_connection_errors);
        errors.clear_device_connection_error(name);
        self.device_connection_errors = errors;
    }

    /// The devices whose port could not be opened.
    pub fn device_connection_errors(&self) -> (r: &DeviceConnectionErrors)
        requires
            self.wf(),
        ensures
            r.wf(),
            r.view() == self.model().errors,
    {
        &self.device_connection_errors
    }

    /// Hands over the channels queued for All Notes Off, emptying the
    /// queue.
    pub fn take_pending_all_notes_off(&mut self) -> (r: Vec<(String, MidiChannel)>)
        requires
            old(self).wf(),
        ensures
            final(self).wf(),
            r@ == old(self).model().all_notes_off,
            final(self).model() == (EvalModel { all_notes_off: Seq::empty(), ..old(self).model() }),
    {
        let mut out: Vec<(String, MidiChannel)> = Vec::new();
        std::mem::swap(&mut out, &mut self.pending_all_notes_off);
        out
    }

    /// Hands over the queued transport messages, emptying the queue.
    pub fn take_pending_transport(&mut self) -> (r: Vec<(String, MidiMessage)>)
        requires
            old(self).wf(),
        ensures
            final(self).wf(),
            r@ == old(self).model().transport,
            final(self).model() == (EvalModel { transport: Seq::empty(), ..old(self).model() }),
    {
        let mut out: Vec<(String, MidiMessage)> = Vec::new();
        std::mem::swap(&mut out, &mut self.pending_transport);
        out
    }

    /// The transport-enabled devices, in name order.
    pub fn transport_enabled_devices(&self) -> (r: Vec<String>)
        requires
            self.wf(),
        ensures
            strictly_sorted(texts(r@)),
            texts(r@).to_set() == transport_names(self.model().registry.devices),
    {
        let names = self.registry.transport_enabled_device_names();
        let mut out: Vec<String> = Vec::new();
        let mut i: usize = 0;
        while i < names.len()
            invariant
                i <= names@.len(),
                out@.len() == i,
                forall|k: int| 0 <= k < i ==> (#[trigger] out@[k])@ == names@[k]@,
            decreases names@.len() - i,
        {
            out.push(owned(names[i].as_str()));
            i += 1;
        }
        proof {
            assert(texts(out@) =~= texts(names@));
        }
        out
    }

    /// The scene that plays, if any.
    pub fn active_scene(&self) -> (r: Option<&ScenePlayer>)
        ensures
            match r {
                Some(p) => self.model().scene == Some(*p),
                None => self.model().scene is None,
            },
    {
        match &self.active_scene {
            Some(p) => Some(p),
            None => None,
        }
    }

    /// The name of the scene that plays, if any.
    pub fn active_scene_name_for_test(&self) -> (r: Option<&str>)
        ensures
            match r {
                Some(n) => self.model().scene_name matches Some(m) && m@ == n@,
                None => self.model().scene_name is None,
            },
    {
        match &self.active_scene_name {
            Some(n) => Some(n.as_str()),
            None => None,
        }
    }

    /// Takes the scene that plays out of the evaluator.
    pub fn take_active_scene(&mut self) -> (r: Option<ScenePlayer>)
        requires
            old(self).wf(),
        ensures
            final(self).wf(),
            r == old(self).model().scene,
            final(self).model() == (EvalModel { scene: None, ..old(self).model() }),
    {
        self.active_scene.take()
    }

    /// The registered definitions.
    pub fn registry(&self) -> (r: &Registry)
        requires
            self.wf(),
        ensures
            r.wf(),
            r@ == self.model().registry,
    {
        &self.registry
    }

    /// The variable scopes.
    pub fn scope(&self) -> (r: &ScopeChain)
        requires
            self.wf(),
        ensures
            r.wf(),
            r@ == self.model().scopes,
    {
        &self.scope
    }

    /// A copy of the clock.
    pub fn clock_snapshot(&self) -> (r: Clock)
        ensures
            r == self.model().clock,
    {
        self.clock.clone()
    }

    /// The tempo in beats per minute.
    pub fn bpm(&self) -> (r: i64)
        ensures
            r == self.model().clock.bpm_spec(),
    {
        self.clock.bpm()
    }

    /// The playback state.
    pub fn state(&self) -> (r: &PlaybackView)
        ensures
            *r == self.model().view,
    {
        &self.state
    }

    /// Whether an edit asked a playing session to move on at the next grid
    /// boundary.
    pub fn force_scene_advance_requested(&self) -> (r: bool)
        ensures
            r == self.model().force,
    {
        self.force_scene_advance_on_grid
    }

    /// Swaps in every clip staged in the scene that plays (the driver does
    /// this on each grid head): see `clips_committed`.
    pub fn commit_pending_clips(&mut self)
        requires
            old(self).wf(),
        ensures
            final(self).wf(),
            clips_committed(old(self).model(), final(self).model()),
    {
        let mut scene = match self.active_scene.take() {
            Some(s) => s,
            None => return,
        };
        let ghost s0 = scene;
        scene.commit_pending_clips();
        proof {
            assert forall|i: int| 0 <= i < scene.players_spec().len() implies crate::control::player_voiced(
                (#[trigger] scene.players_spec()[i]).1,
            ) by {
                assert(crate::control::player_voiced(s0.players_spec()[i].1));
            }
        }
        self.active_scene = Some(scene);
    }

    /// Plays tick `tick` of the scene that plays: its events there, as
    /// (device, message) pairs, then every clip moves on one tick; with
    /// them comes the length of a scene loop after the move. Nothing plays
    /// without a scene. A scene in which a clip cannot move on (its tick
    /// would overflow, or an empty clip waits to be swapped in), or whose
    /// loop length does not fit in a `u64`, is an error.
    pub fn play_tick(&mut self, tick: u64) -> (r: Result<(Vec<(String, MidiMessage)>, u64), EngineError>)
        requires
            old(self).wf(),
        ensures
            final(self).wf(),
            tick_played(old(self).model(), tick, final(self).model(), r),
    {
        let ghost m0 = self.model();
        let mut scene = match self.active_scene.take() {
            Some(s) => s,
            None => return Ok((Vec::new(), 0)),
        };
        if !scene.can_advance_all(1) {
            self.active_scene = Some(scene);
            return Err(EngineError::Config(owned("a clip cannot move on")));
        }
        let ghost s0 = scene;
        let events = scene.events_at(tick);
        let mut out: Vec<(String, MidiMessage)> = Vec::new();
        let mut k: usize = 0;
        while k < events.len()
            invariant
                k <= events@.len(),
                out@.len() == k,
                forall|j: int| 0 <= j < k ==> #[trigger] out@[j] == ((*events@[j]).device, (*events@[j]).message),
            decreases events@.len() - k,
        {
            let e = events[k];
            out.push((e.device.clone(), e.message));
            k += 1;
        }
        proof {
            assert(out@ =~= routed(scene_events(s0.players_spec(), tick, s0.players_spec().len() as int)));
        }
        scene.advance_all(1);
        proof {
            assert forall|i: int| 0 <= i < scene.players_spec().len() implies crate::control::player_voiced(
                (#[trigger] scene.players_spec()[i]).1,
            ) by {
                assert(crate::control::player_voiced(s0.players_spec()[i].1));
            }
        }
        let len = scene.checked_scene_tick_length();
        self.active_scene = Some(scene);
        match len {
            Some(n) => Ok((out, n)),
            None => Err(EngineError::Config(owned("scene loop length overflows"))),
        }
    }

    /// Carries out the playback state machine's decision `action` (see
    /// `action_carried_out`); when playback ends with the scene or the
    /// session, nothing plays any more.
    pub fn apply_next_action(&mut self, action: NextAction) -> (r: Result<SceneTransitionOutcome, EngineError>)
        requires
            old(self).wf(),
        ensures
            final(self).wf(),
            action_carried_out(
                old(self).model().registry,
                old(self).model().clock,
                action,
                old(self).model().scene,
                final(self).model().scene,
                old(self).model().scene_name,
                final(self).model().scene_name,
                r,
            ),
            final(self).model().view == view_after(old(self).model().view, r),
            final(self).model().registry == old(self).model().registry && final(self).model().scopes == old(self).model().scopes
                && final(self).model().clock == old(self).model().clock,
            final(self).model().all_notes_off == old(self).model().all_notes_off && final(self).model().transport == old(
                self,
            ).model().transport && final(self).model().force == old(self).model().force && final(self).model().errors == old(
                self,
            ).model().errors,
    {
        let mut scene = self.active_scene.take();
        let mut scene_name = self.active_scene_name.take();
        let r = crate::transitions::apply_next_action(&self.registry, &self.clock, &mut scene, &mut scene_name, action, &mut self.rng);
        self.active_scene = scene;
        self.active_scene_name = scene_name;
        self.finish_transition(&r);
        r
    }

    /// Nothing plays once playback ended with the scene or the session.
    fn finish_transition(&mut self, r: &Result<SceneTransitionOutcome, EngineError>)
        ensures
            final(self).model() == (EvalModel { view: view_after(old(self).model().view, *r), ..old(self).model() }),
            final(self).wf() == old(self).wf(),
    {
        match r {
            Ok(SceneTransitionOutcome::SceneComplete) => stop_view(&mut self.state),
            Ok(SceneTransitionOutcome::SessionComplete) => stop_view(&mut self.state),
            _ => {},
        }
    }

    /// One loop of the playing scene ended: the scene's tempo entry applies
    /// to the clock, then `action` is carried out with the new tempo.
    fn end_loop_with(&mut self, action: NextAction) -> (r: Result<SceneTransitionOutcome, EngineError>)
        requires
            old(self).wf(),
        ensures
            final(self).wf(),
            tempo_applied(old(self).model().clock, final(self).model().clock, tempo_due(old(self).model().registry, old(self).model().scene_name)),
            action_carried_out(
                old(self).model().registry,
                final(self).model().clock,
                action,
                old(self).model().scene,
                final(self).model().scene,
                old(self).model().scene_name,
                final(self).model().scene_name,
                r,
            ),
            final(self).model().view == view_after(old(self).model().view, r),
            final(self).model().registry == old(self).model().registry && final(self).model().scopes == old(self).model().scopes,
            final(self).model().all_notes_off == old(self).model().all_notes_off && final(self).model().transport == old(
                self,
            ).model().transport && final(self).model().force == old(self).model().force && final(self).model().errors == old(
                self,
            ).model().errors,
    {
        let mut scene = self.active_scene.take();
        let mut scene_name = self.active_scene_name.take();
        let mut clock = self.clock.clone();
        let r = crate::transitions::on_scene_loop_complete(&self.registry, &mut clock, &mut scene, &mut scene_name, action, &mut self.rng);
        self.active_scene = scene;
        self.active_scene_name = scene_name;
        self.clock = clock;
        self.finish_transition(&r);
        r
    }

    /// At a grid boundary, with an edit's request: the request is cleared;
    /// with `has_next_entry` the result is `None` and the move is made by the
    /// caller; otherwise the scene is rebuilt from its latest definition.
    fn grid_request(&mut self, has_next_entry: bool) -> (r: Result<
        Option<SceneTransitionOutcome>,
        EngineError,
    >)
        requires
            old(self).wf(),
        ensures
            final(self).wf(),
            !final(self).model().force,
            if !old(self).model().force || has_next_entry {
                &&& r == Ok::<Option<SceneTransitionOutcome>, EngineError>(
                    if old(self).model().force {
                        None
                    } else {
                        Some(SceneTransitionOutcome::Continue)
                    },
                )
                &&& final(self).model().scene == old(self).model().scene
            } else {
                match old(self).model().scene_name {
                    Some(n) if old(self).model().registry.scenes.contains_key(n@) => exists|b: Result<ScenePlayer, EngineError>|
                        #[trigger] built_for(old(self).model().registry, old(self).model().clock, old(self).model().registry.scenes[n@], b)
                            && match b {
                            Ok(p) => r == Ok::<Option<SceneTransitionOutcome>, EngineError>(Some(SceneTransitionOutcome::Continue))
                                && final(self).model().scene == Some(p),
                            Err(e) => r == Err::<Option<SceneTransitionOutcome>, EngineError>(e) && final(self).model().scene == old(
                                self,
                            ).model().scene,
                        },
                    _ => r == Ok::<Option<SceneTransitionOutcome>, EngineError>(Some(SceneTransitionOutcome::Continue))
                        && final(self).model().scene == old(self).model().scene,
                }
            },
            final(self).model() == (EvalModel { scene: final(self).model().scene, force: false, ..old(self).model() }),
    {
        let mut scene = self.active_scene.take();
        let mut force = self.force_scene_advance_on_grid;
        let r = crate::transitions::try_force_advance_session_on_grid(
            &self.registry,
            &self.clock,
            &mut scene,
            &self.active_scene_name,
            &mut force,
            has_next_entry,
            &mut self.rng,
        );
        self.active_scene = scene;
        self.force_scene_advance_on_grid = force;
        r
    }

    /// The entries of the session that plays, if any.
    fn current_entries<'a>(&'a self, empty: &'a Vec<SessionEntry>) -> (r: &'a Vec<SessionEntry>)
        requires
            self.wf(),
            empty@.len() == 0,
        ensures
            r@ == session_entries(self.model().registry, self.model().view),
    {
        if !self.state.session {
            return empty;
        }
        match &self.state.current {
            Some(n) => match self.registry.get_session(n.as_str()) {
                Some(def) => &def.entries,
                None => empty,
            },
            None => empty,
        }
    }

    /// One loop of the playing scene ended: the scene's tempo entry applies
    /// to the clock, then what comes next is decided (see `loop_end`) and
    /// carried out with the new tempo (see `action_carried_out`).
    pub fn on_scene_loop_complete(&mut self) -> (r: Result<SceneTransitionOutcome, EngineError>)
        requires
            old(self).wf(),
        ensures
            final(self).wf(),
            loop_ended(old(self).model(), final(self).model(), r),
    {
        let ghost m0 = old(self).model();
        let empty: Vec<SessionEntry> = Vec::new();
        let (a, p) = {
            let entries = self.current_entries(&empty);
            decide_loop_end(self.state.session, self.state.repeat, self.state.progress, entries)
        };
        let ghost ga = a;
        self.state.progress = p;
        let r = self.end_loop_with(a);
        proof {
            let entries = session_entries(m0.registry, m0.view);
            assert(acts(loop_end(m0.view.session, m0.view.repeat, m0.view.progress, entries).0, entries, ga));
        }
        r
    }

    /// At a grid boundary: when an edit asked a playing session to move on,
    /// the request is cleared and the session moves on to its next entry
    /// (see `forced_next`); when it has none, its scene keeps playing,
    /// rebuilt from the scene's latest definition. Without a request nothing
    /// happens.
    pub fn try_force_advance_session_on_grid(&mut self) -> (r: Result<SceneTransitionOutcome, EngineError>)
        requires
            old(self).wf(),
        ensures
            final(self).wf(),
            !final(self).model().force,
            grid_advanced(old(self).model(), final(self).model(), r),
    {
        let ghost m0 = old(self).model();
        if !self.force_scene_advance_on_grid {
            return Ok(SceneTransitionOutcome::Continue);
        }
        let empty: Vec<SessionEntry> = Vec::new();
        let step = {
            let entries = self.current_entries(&empty);
            if check_next_entry(self.state.repeat, self.state.progress, entries) {
                Some(force_next_entry(self.state.progress, entries))
            } else {
                None
            }
        };
        match step {
            Some((a, p)) => {
                let ghost ga = a;
                self.force_scene_advance_on_grid = false;
                self.state.progress = p;
                let r = self.apply_next_action(a);
                proof {
                    let entries = session_entries(m0.registry, m0.view);
                    assert(acts(Decision::Entry(forced_next(m0.view.progress, entries).0), entries, ga));
                }
                r
            },
            None => {
                let r = self.grid_request(false);
                match r {
                    Ok(_) => Ok(SceneTransitionOutcome::Continue),
                    Err(e) => Err(e),
                }
            },
        }
    }

    /// `play`: see `block_outcome`.
    fn play(&mut self, cmd: crate::ast::PlayCommand) -> (r: Result<EvalResult, EngineError>)
        requires
            old(self).wf(),
        ensures
            final(self).wf(),
            block_outcome(old(self).model(), Block::Play(cmd), r, final(self).model()),
    {
        let mut scene = self.active_scene.take();
        let mut scene_name = self.active_scene_name.take();
        let mut transport: Vec<(String, MidiMessage)> = Vec::new();
        std::mem::swap(&mut transport, &mut self.pending_transport);
        let rp = eval_play(&self.registry, &self.clock, &mut scene, &mut scene_name, &mut transport, cmd, &mut self.rng);
        self.active_scene = scene;
        self.active_scene_name = scene_name;
        self.pending_transport = transport;
        let ghost grp = rp;
        let ghost m0 = old(self).model();
        match rp {
            Ok((res, c)) => {
                apply_change(&mut self.state, c);
                proof {
                    let m1 = self.model();
                    assert(play_done(m0.registry, m0.clock, m0.scene, m1.scene, m0.scene_name, m1.scene_name, m0.transport, m1.transport, cmd, grp));
                }
                Ok(res)
            },
            Err(e) => {
                proof {
                    let m1 = self.model();
                    assert(play_done(m0.registry, m0.clock, m0.scene, m1.scene, m0.scene_name, m1.scene_name, m0.transport, m1.transport, cmd, grp));
                }
                Err(e)
            },
        }
    }

    /// `stop`: see `block_outcome`.
    fn stop(&mut self, cmd: crate::ast::StopCommand) -> (r: Result<EvalResult, EngineError>)
        requires
            old(self).wf(),
        ensures
            final(self).wf(),
            block_outcome(old(self).model(), Block::Stop(cmd), r, final(self).model()),
    {
        let ghost m0 = old(self).model();
        let mut scene = self.active_scene.take();
        let mut scene_name = self.active_scene_name.take();
        let mut notes: Vec<(String, MidiChannel)> = Vec::new();
        std::mem::swap(&mut notes, &mut self.pending_all_notes_off);
        let mut transport: Vec<(String, MidiMessage)> = Vec::new();
        std::mem::swap(&mut transport, &mut self.pending_transport);
        let rs = eval_stop(&self.registry, &mut scene, &mut scene_name, &mut notes, &mut transport, &self.state, cmd);
        self.active_scene = scene;
        self.active_scene_name = scene_name;
        self.pending_all_notes_off = notes;
        self.pending_transport = transport;
        let ghost grs = rs;
        let (res, c) = rs;
        apply_change(&mut self.state, c);
        proof {
            let m1 = self.model();
            assert(stop_done(
                m0.registry,
                m0.scene,
                m1.scene,
                m0.scene_name,
                m1.scene_name,
                m0.all_notes_off,
                m1.all_notes_off,
                m0.transport,
                m1.transport,
                m0.view,
                cmd,
                grs,
            ));
        }
        Ok(res)
    }

    /// `pause`: see `block_outcome`.
    fn pause(&mut self, cmd: crate::ast::PauseCommand) -> (r: Result<EvalResult, EngineError>)
        requires
            old(self).wf(),
        ensures
            final(self).wf(),
            block_outcome(old(self).model(), Block::Pause(cmd), r, final(self).model()),
    {
        let ghost m0 = old(self).model();
        let mut scene = self.active_scene.take();
        let mut notes: Vec<(String, MidiChannel)> = Vec::new();
        std::mem::swap(&mut notes, &mut self.pending_all_notes_off);
        let rp = eval_pause(&mut scene, &mut notes, &self.state, cmd);
        self.active_scene = scene;
        self.pending_all_notes_off = notes;
        let ghost grp = rp;
        let (res, c) = rp;
        apply_change(&mut self.state, c);
        proof {
            let m1 = self.model();
            assert(pause_outcome(m0.scene, m1.scene, m0.all_notes_off, m1.all_notes_off, m0.view, cmd, grp));
            lemma_pause_live(m0.scene, m1.scene, m0.all_notes_off, m1.all_notes_off, m0.view, cmd, grp);
        }
        Ok(res)
    }

    /// `resume`: see `block_outcome`.
    fn resume(&mut self, cmd: crate::ast::ResumeCommand) -> (r: Result<EvalResult, EngineError>)
        requires
            old(self).wf(),
        ensures
            final(self).wf(),
            block_outcome(old(self).model(), Block::Resume(cmd), r, final(self).model()),
    {
        let ghost m0 = old(self).model();
        let mut scene = self.active_scene.take();
        let rp = eval_resume(&mut scene, &self.state, cmd);
        self.active_scene = scene;
        let ghost grp = rp;
        let (res, c) = rp;
        apply_change(&mut self.state, c);
        proof {
            let m1 = self.model();
            assert(resume_outcome(m0.scene, m1.scene, m0.view, cmd, grp));
            lemma_resume_live(m0.scene, m1.scene, m0.view, cmd, grp);
        }
        Ok(res)
    }

    /// `mute`: see `block_outcome`.
    fn mute(&mut self, cmd: crate::ast::MuteCommand) -> (r: Result<EvalResult, EngineError>)
        requires
            old(self).wf(),
        ensures
            final(self).wf(),
            block_outcome(old(self).model(), Block::Mute(cmd), r, final(self).model()),
    {
        let mut scene = self.active_scene.take();
        let mut notes: Vec<(String, MidiChannel)> = Vec::new();
        std::mem::swap(&mut notes, &mut self.pending_all_notes_off);
        let ghost s0 = scene;
        let ghost q0 = notes@;
        let res = eval_mute(&mut scene, &mut notes, cmd);
        proof {
            lemma_mute_live(s0, scene, q0, notes@, cmd, res);
        }
        self.active_scene = scene;
        self.pending_all_notes_off = notes;
        Ok(res)
    }

    /// `unmute`: see `block_outcome`.
    fn unmute(&mut self, cmd: crate::ast::UnmuteCommand) -> (r: Result<EvalResult, EngineError>)
        requires
            old(self).wf(),
        ensures
            final(self).wf(),
            block_outcome(old(self).model(), Block::Unmute(cmd), r, final(self).model()),
    {
        let mut scene = self.active_scene.take();
        let ghost s0 = scene;
        let res = eval_unmute(&mut scene, cmd);
        proof {
            lemma_unmute_live(s0, scene, cmd, res);
        }
        self.active_scene = scene;
        Ok(res)
    }

    /// A clip definition: see `block_outcome`.
    fn clip(&mut self, c: crate::ast::ClipDef) -> (r: Result<EvalResult, EngineError>)
        requires
            old(self).wf(),
        ensures
            final(self).wf(),
            block_outcome(old(self).model(), Block::Clip(c), r, final(self).model()),
    {
        let ghost m0 = old(self).model();
        let name = c.name.clone();
        let mut registry = Registry::new();
        std::mem::swap(&mut registry, &mut self.registry);
        registry.register_block(Block::Clip(c));
        self.registry = registry;
        let mut scene = self.active_scene.take();
        let mut force = self.force_scene_advance_on_grid;
        let ru = update_playing_clip(&self.registry, &self.clock, &mut scene, name.as_str(), &self.state, &mut force);
        self.active_scene = scene;
        self.force_scene_advance_on_grid = force;
        let ghost gru = ru;
        proof {
            let m1 = self.model();
            assert(clip_update_done(m1.registry, m0.clock, m0.scene, m1.scene, c.name@, m0.view, m0.force, m1.force, gru));
        }
        match ru {
            Ok(()) => Ok(EvalResult::Registered { kind: owned("Clip"), name }),
            Err(e) => Err(e),
        }
    }

    /// A definition block other than a clip: see `block_outcome`.
    fn define(&mut self, block: Block) -> (r: Result<EvalResult, EngineError>)
        requires
            old(self).wf(),
            !(block is Clip || block is Play || block is Stop || block is Pause || block is Resume || block is Mute
                || block is Unmute),
        ensures
            final(self).wf(),
            block_outcome(old(self).model(), block, r, final(self).model()),
    {
        let mut force = self.force_scene_advance_on_grid;
        match &block {
            Block::Scene(sc) => scene_redefined(&self.state, &self.active_scene_name, sc.name.as_str(), &mut force),
            Block::Session(se) => session_redefined(&self.state, se.name.as_str(), &mut force),
            _ => {},
        }
        self.force_scene_advance_on_grid = force;
        let mut registry = Registry::new();
        std::mem::swap(&mut registry, &mut self.registry);
        let mut scope = ScopeChain::new();
        std::mem::swap(&mut scope, &mut self.scope);
        let mut clock = self.clock.clone();
        let r = eval_definition(&mut registry, &mut scope, &mut clock, block);
        self.registry = registry;
        self.scope = scope;
        self.clock = clock;
        r.unwrap()
    }

    /// Evaluates one block: see `block_outcome`.
    pub fn eval_block(&mut self, block: Block) -> (r: Result<EvalResult, EngineError>)
        requires
            old(self).wf(),
        ensures
            final(self).wf(),
            block_outcome(old(self).model(), block, r, final(self).model()),
    {
        match block {
            Block::Play(cmd) => self.play(cmd),
            Block::Stop(cmd) => self.stop(cmd),
            Block::Pause(cmd) => self.pause(cmd),
            Block::Resume(cmd) => self.resume(cmd),
            Block::Mute(cmd) => self.mute(cmd),
            Block::Unmute(cmd) => self.unmute(cmd),
            Block::Clip(c) => self.clip(c),
            other => self.define(other),
        }
    }
}

} // verus!
