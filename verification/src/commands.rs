//! The `play` and `stop` commands, and what an edit changes in the
//! playback: a redefined clip of the playing scene is compiled again and
//! staged to swap in at the next grid boundary, and an edit that touches
//! a playing session asks it to move on to its next scene at that
//! boundary.
//!
//! `play` and `stop` queue the System Real-Time Start or Stop message for
//! every transport-enabled device; `stop` queues All Notes Off for the
//! channels of the scene it ends.

use vstd::prelude::*;

use rand::rngs::StdRng;

use crate::ast::{PlayCommand, PlayTarget, SceneDef, StopCommand};
use crate::clock::Clock;
use crate::compiler::{clip_spec, compile_clip, reports, view_clip, ClipView};
use crate::control::{live_scene, names_current, queue_scene_channels, scene_has, scene_pairs, PlaybackView, StateChange};
use crate::domain::MidiChannel;
use crate::error::EngineError;
use crate::evaluation::EvalResult;
use crate::midi::MidiMessage;
use crate::player::{first_named, only_player_changed, pairs_view, ScenePlayer};
use crate::registry::{strictly_sorted, texts, transport_names, Registry, RegistryModel};
use crate::scene_build::{build_scene_player, built_for};
use crate::text::{owned, same_text};

verus! {

/// The device names of queued messages.
pub open spec fn device_names(q: Seq<(String, MidiMessage)>) -> Seq<Seq<char>> {
    q.map_values(|p: (String, MidiMessage)| p.0@)
}

/// `new` is `old` with `msg` queued for every transport-enabled device,
/// in name order.
pub open spec fn transport_queued(
    old: Seq<(String, MidiMessage)>,
    new: Seq<(String, MidiMessage)>,
    reg: RegistryModel,
    msg: MidiMessage,
) -> bool {
    let added = new.skip(old.len() as int);
    &&& old.len() <= new.len()
    &&& new.take(old.len() as int) == old
    &&& forall|k: int| 0 <= k < added.len() ==> (#[trigger] added[k]).1 == msg
    &&& strictly_sorted(device_names(added))
    &&& device_names(added).to_set() == transport_names(reg.devices)
}

/// Queues `msg` for every transport-enabled device.
fn queue_transport(registry: &Registry, msg: MidiMessage, queue: &mut Vec<(String, MidiMessage)>)
    requires
        registry.wf(),
    ensures
        transport_queued(old(queue)@, final(queue)@, registry@, msg),
{
    let names = registry.transport_enabled_device_names();
    let ghost pre = queue@;
    let mut i: usize = 0;
    while i < names.len()
        invariant
            i <= names@.len(),
            queue@.len() == pre.len() + i,
            forall|k: int| 0 <= k < pre.len() ==> #[trigger] queue@[k] == pre[k],
            forall|k: int| 0 <= k < i ==> (#[trigger] queue@[pre.len() + k]).0@ == names@[k]@ && queue@[pre.len() + k].1 == msg,
        decreases names@.len() - i,
    {
        queue.push((owned(names[i].as_str()), msg));
        i += 1;
    }
    proof {
        let added = queue@.skip(pre.len() as int);
        assert(queue@.take(pre.len() as int) =~= pre);
        assert(added.len() == names@.len());
        assert forall|k: int| 0 <= k < added.len() implies #[trigger] device_names(added)[k] == texts(
            names@,
        )[k] by {
            assert(added[k] == queue@[pre.len() + k]);
        }
        assert(device_names(added) =~= texts(names@));
        assert forall|k: int| 0 <= k < added.len() implies (#[trigger] added[k]).1 == msg by {
            assert(added[k] == queue@[pre.len() + k]);
        }
    }
}

/// How starting a scene ends: on a player built, it is the playing scene
/// under `name`; on a failure nothing changes.
pub open spec fn started(
    b: Result<ScenePlayer, EngineError>,
    ok: bool,
    s0: Option<ScenePlayer>,
    s1: Option<ScenePlayer>,
    n0: Option<String>,
    n1: Option<String>,
    name: Seq<char>,
) -> bool {
    match b {
        Ok(p) => ok && s1 == Some(p) && (n1 matches Some(m) && m@ == name),
        Err(_) => !ok && s1 == s0 && n1 == n0,
    }
}

/// Builds the player of `def` and makes it the playing scene, named
/// `name`; a failure changes nothing.
fn start_scene(
    registry: &Registry,
    clock: &Clock,
    def: &SceneDef,
    name: &str,
    scene: &mut Option<ScenePlayer>,
    scene_name: &mut Option<String>,
    rng: &mut StdRng,
) -> (r: Result<(), EngineError>)
    requires
        registry.wf(),
        live_scene(*old(scene)),
    ensures
        live_scene(*final(scene)),
        exists|b: Result<ScenePlayer, EngineError>|
            #[trigger] built_for(registry@, *clock, *def, b) && started(b, r is Ok, *old(scene), *final(scene), *old(scene_name), *final(scene_name), name@)
                && (b matches Err(e) ==> r == Err::<(), EngineError>(e)),
{
    let b = build_scene_player(registry, clock, def, rng);
    let ghost bb = b;
    match b {
        Ok(p) => {
            *scene = Some(p);
            *scene_name = Some(owned(name));
            assert(started(bb, true, *old(scene), *scene, *old(scene_name), *scene_name, name@));
            Ok(())
        },
        Err(e) => {
            assert(started(bb, false, *old(scene), *scene, *old(scene_name), *scene_name, name@));
            Err(e)
        },
    }
}

/// What `play` gives when it started a scene built as `b`: the scene plays
/// and Start is queued; on a failure nothing changes.
pub open spec fn play_outcome(
    b: Result<ScenePlayer, EngineError>,
    r: Result<(EvalResult, StateChange), EngineError>,
    s0: Option<ScenePlayer>,
    s1: Option<ScenePlayer>,
    n0: Option<String>,
    n1: Option<String>,
    q0: Seq<(String, MidiMessage)>,
    q1: Seq<(String, MidiMessage)>,
    reg: RegistryModel,
    scene_name: Seq<char>,
) -> bool {
    match b {
        Ok(p) => {
            &&& r matches Ok(res) && res.0 is PlayStarted
            &&& s1 == Some(p)
            &&& n1 matches Some(m) && m@ == scene_name
            &&& transport_queued(q0, q1, reg, MidiMessage::Start)
        },
        Err(e) => r == Err::<(EvalResult, StateChange), EngineError>(e) && s1 == s0 && n1 == n0 && q1 == q0,
    }
}

/// What `play` does: see `eval_play`.
pub open spec fn play_done(
    reg: RegistryModel,
    clock: Clock,
    s0: Option<ScenePlayer>,
    s1: Option<ScenePlayer>,
    n0: Option<String>,
    n1: Option<String>,
    q0: Seq<(String, MidiMessage)>,
    q1: Seq<(String, MidiMessage)>,
    cmd: PlayCommand,
    r: Result<(EvalResult, StateChange), EngineError>,
) -> bool {
    match cmd.target {
        PlayTarget::Scene(n) => if !reg.scenes.contains_key(n@) {
            &&& r matches Err(EngineError::UnknownScene(x)) && x@ == n@
            &&& s1 == s0 && n1 == n0 && q1 == q0
        } else {
            &&& r matches Ok(res) ==> (res.1 matches StateChange::PlayScene { name, repeat } && name@ == n@ && repeat == cmd.repeat)
            &&& exists|b: Result<ScenePlayer, EngineError>|
                #[trigger] built_for(reg, clock, reg.scenes[n@], b) && play_outcome(
                    b,
                    r,
                    s0,
                    s1,
                    n0,
                    n1,
                    q0,
                    q1,
                    reg,
                    n@,
                )
        },
        PlayTarget::Session(n) => if !reg.sessions.contains_key(n@) {
            &&& r matches Err(EngineError::UnknownSession(x)) && x@ == n@
            &&& s1 == s0 && n1 == n0 && q1 == q0
        } else if reg.sessions[n@].entries@.len() == 0 {
            &&& r matches Ok((EvalResult::PlayStarted, StateChange::PlaySession { name, repeat })) && name@ == n@ && repeat
                == cmd.repeat
            &&& s1 is None && n1 is None
            &&& transport_queued(q0, q1, reg, MidiMessage::Start)
        } else {
            let first = reg.sessions[n@].entries@[0].scene@;
            if !reg.scenes.contains_key(first) {
                &&& r matches Err(EngineError::UnknownScene(x)) && x@ == first
                &&& s1 == s0 && n1 == n0 && q1 == q0
            } else {
                &&& r matches Ok(res) ==> (res.1 matches StateChange::PlaySession { name, repeat } && name@ == n@ && repeat
                    == cmd.repeat)
                &&& exists|b: Result<ScenePlayer, EngineError>|
                    #[trigger] built_for(reg, clock, reg.scenes[first], b) && play_outcome(
                        b,
                        r,
                        s0,
                        s1,
                        n0,
                        n1,
                        q0,
                        q1,
                        reg,
                        first,
                    )
            }
        },
    }
}

/// `play <scene>` or `play <session>`. A scene is built for its first
/// loop and becomes the playing scene; a session starts with the scene of
/// its first entry (none for a session without entries). An unknown scene
/// or session, or a scene that cannot be built, is an error that changes
/// nothing; on success Start is queued for the transport-enabled devices
/// and the change to the playback state is returned.
pub fn eval_play(
    registry: &Registry,
    clock: &Clock,
    scene: &mut Option<ScenePlayer>,
    scene_name: &mut Option<String>,
    transport: &mut Vec<(String, MidiMessage)>,
    cmd: PlayCommand,
    rng: &mut StdRng,
) -> (r: Result<(EvalResult, StateChange), EngineError>)
    requires
        registry.wf(),
        live_scene(*old(scene)),
    ensures
        live_scene(*final(scene)),
        play_done(registry@, *clock, *old(scene), *final(scene), *old(scene_name), *final(scene_name), old(transport)@, final(transport)@, cmd, r),
{
    match cmd.target {
        PlayTarget::Scene(name) => {
            let def = match registry.get_scene(name.as_str()) {
                Some(d) => d,
                None => return Err(EngineError::UnknownScene(name)),
            };
            let res = start_scene(registry, clock, def, name.as_str(), scene, scene_name, rng);
            let change = StateChange::PlayScene { name: name.clone(), repeat: cmd.repeat };
            match res {
                Ok(()) => {
                    queue_transport(registry, MidiMessage::Start, transport);
                    Ok((EvalResult::PlayStarted, change))
                },
                Err(e) => Err(e),
            }
        },
        PlayTarget::Session(name) => {
            let def = match registry.get_session(name.as_str()) {
                Some(d) => d,
                None => return Err(EngineError::UnknownSession(name)),
            };
            let change = StateChange::PlaySession { name: name.clone(), repeat: cmd.repeat };
            if def.entries.len() == 0 {
                *scene = None;
                *scene_name = None;
                queue_transport(registry, MidiMessage::Start, transport);
                return Ok((EvalResult::PlayStarted, change));
            }
            let first = &def.entries[0].scene;
            let sdef = match registry.get_scene(first.as_str()) {
                Some(d) => d,
                None => return Err(EngineError::UnknownScene(owned(first.as_str()))),
            };
            let res = start_scene(registry, clock, sdef, first.as_str(), scene, scene_name, rng);
            match res {
                Ok(()) => {
                    queue_transport(registry, MidiMessage::Start, transport);
                    Ok((EvalResult::PlayStarted, change))
                },
                Err(e) => Err(e),
            }
        },
    }
}

/// Playback stopped: no scene plays, and the channels of the scene that
/// played are queued for All Notes Off.
pub open spec fn stopped(
    s0: Option<ScenePlayer>,
    s1: Option<ScenePlayer>,
    n1: Option<String>,
    q0: Seq<(String, MidiChannel)>,
    q1: Seq<(String, MidiChannel)>,
) -> bool {
    &&& s1 is None && n1 is None
    &&& pairs_view(q1) == pairs_view(q0) + match s0 {
        Some(s) => scene_pairs(s),
        None => Seq::empty(),
    }
}

/// Ends the playing scene, queueing its channels.
fn stop_scene(scene: &mut Option<ScenePlayer>, scene_name: &mut Option<String>, all_notes_off: &mut Vec<(String, MidiChannel)>)
    requires
        live_scene(*old(scene)),
    ensures
        stopped(*old(scene), *final(scene), *final(scene_name), old(all_notes_off)@, final(all_notes_off)@),
{
    match scene {
        Some(s) => queue_scene_channels(s, all_notes_off),
        None => {
            assert(pairs_view(all_notes_off@) + Seq::<(Seq<char>, MidiChannel)>::empty() =~= pairs_view(all_notes_off@));
        },
    }
    *scene = None;
    *scene_name = None;
}

/// What `stop` does: see `eval_stop`.
pub open spec fn stop_done(
    reg: RegistryModel,
    s0: Option<ScenePlayer>,
    s1: Option<ScenePlayer>,
    n0: Option<String>,
    n1: Option<String>,
    a0: Seq<(String, MidiChannel)>,
    a1: Seq<(String, MidiChannel)>,
    q0: Seq<(String, MidiMessage)>,
    q1: Seq<(String, MidiMessage)>,
    view: PlaybackView,
    cmd: StopCommand,
    r: (EvalResult, StateChange),
) -> bool {
    &&& r.0 is Stopped
    &&& transport_queued(q0, q1, reg, MidiMessage::Stop)
    &&& match cmd.target {
        None => {
            &&& r.1 matches StateChange::Stop(t) && t is None
            &&& stopped(s0, s1, n1, a0, a1)
        },
        Some(n) => if names_current(view, n@) {
            &&& r.1 matches StateChange::Stop(t) && t matches Some(t2) && t2@ == n@
            &&& stopped(s0, s1, n1, a0, a1)
        } else {
            &&& r.1 is Keep
            &&& s1 == s0 && n1 == n0
            &&& a1 == a0
        },
    }
}

/// `stop`, or `stop <name>` for the scene or session that plays: playback
/// stops and the playing scene's channels are queued for All Notes Off.
/// Any other name changes nothing. Stop is queued for the
/// transport-enabled devices in every case.
pub fn eval_stop(
    registry: &Registry,
    scene: &mut Option<ScenePlayer>,
    scene_name: &mut Option<String>,
    all_notes_off: &mut Vec<(String, MidiChannel)>,
    transport: &mut Vec<(String, MidiMessage)>,
    view: &PlaybackView,
    cmd: StopCommand,
) -> (r: (EvalResult, StateChange))
    requires
        registry.wf(),
        live_scene(*old(scene)),
    ensures
        live_scene(*final(scene)),
        stop_done(registry@, *old(scene), *final(scene), *old(scene_name), *final(scene_name), old(all_notes_off)@, final(all_notes_off)@, old(transport)@, final(transport)@, *view, cmd, r),
{
    queue_transport(registry, MidiMessage::Stop, transport);
    match cmd.target {
        None => {
            stop_scene(scene, scene_name, all_notes_off);
            (EvalResult::Stopped, StateChange::Stop(None))
        },
        Some(name) => {
            let is_current = match &view.current {
                Some(c) => same_text(c, name.as_str()),
                None => false,
            };
            if is_current {
                stop_scene(scene, scene_name, all_notes_off);
                (EvalResult::Stopped, StateChange::Stop(Some(name)))
            } else {
                (EvalResult::Stopped, StateChange::Keep)
            }
        },
    }
}

/// A session plays under the name `name`.
pub fn is_playing_session_named(view: &PlaybackView, name: &str) -> (r: bool)
    ensures
        r == (view.playing && view.session && names_current(*view, name@)),
{
    if !(view.playing && view.session) {
        return false;
    }
    match &view.current {
        Some(c) => same_text(c, name),
        None => false,
    }
}

/// Asks a playing session to move on to its next scene at the next grid
/// boundary.
pub fn request_force_scene_advance_if_session(view: &PlaybackView, force: &mut bool)
    ensures
        *final(force) == (*old(force) || (view.playing && view.session)),
{
    if view.playing && view.session {
        *force = true;
    }
}

/// `new` is `old` with `v` staged in the first player named `name`: its
/// clip plays on until the next grid commit, or its own loop end, swaps
/// in the staged one.
pub open spec fn clip_staged(old: ScenePlayer, new: ScenePlayer, name: Seq<char>, v: ClipView) -> bool {
    &&& new.wf()
    &&& forall|i: int|
        #[trigger] first_named(old.players_spec(), name, i) ==> {
            let (o, f) = (old.players_spec()[i].1, new.players_spec()[i].1);
            &&& only_player_changed(old.players_spec(), new.players_spec(), i)
            &&& f.pending_spec() matches Some(c) && view_clip(c) == v
            &&& f.clip_spec() == o.clip_spec()
            &&& f.tick_spec() == o.tick_spec()
            &&& f.looping_spec() == o.looping_spec()
            &&& f.muted_spec() == o.muted_spec()
            &&& f.paused_spec() == o.paused_spec()
        }
}

/// What redefining the clip `name` does to the playing scene and the
/// request to move a session on: see `update_playing_clip`.
pub open spec fn clip_update_done(
    reg: RegistryModel,
    clock: Clock,
    s0: Option<ScenePlayer>,
    s1: Option<ScenePlayer>,
    name: Seq<char>,
    view: PlaybackView,
    f0: bool,
    f1: bool,
    r: Result<(), EngineError>,
) -> bool {
    if !scene_has(s0, name) {
        r is Ok && s1 == s0 && f1 == f0
    } else {
        match clip_spec(reg, clock, reg.clips[name]) {
            Ok(v) => {
                &&& r is Ok
                &&& s0 matches Some(s) && s1 matches Some(s2) && clip_staged(s, s2, name, v)
                &&& f1 == (f0 || (view.playing && view.session))
            },
            Err(f) => r matches Err(e) && reports(e, f) && s1 == s0 && f1 == f0,
        }
    }
}

/// After the clip `name` was (re)defined: when the playing scene uses it,
/// the new definition is compiled and staged for the scene's first player
/// of that name, and a playing session is asked to move on at the next
/// grid boundary. A definition that does not compile is an error that
/// changes nothing, so the old clip keeps sounding.
pub fn update_playing_clip(
    registry: &Registry,
    clock: &Clock,
    scene: &mut Option<ScenePlayer>,
    name: &str,
    view: &PlaybackView,
    force: &mut bool,
) -> (r: Result<(), EngineError>)
    requires
        registry.wf(),
        live_scene(*old(scene)),
        scene_has(*old(scene), name@) ==> registry@.clips.contains_key(name@),
    ensures
        live_scene(*final(scene)),
        clip_update_done(registry@, *clock, *old(scene), *final(scene), name@, *view, *old(force), *final(force), r),
{
    let in_use = match scene {
        Some(s) => s.has_clip(name),
        None => false,
    };
    if !in_use {
        return Ok(());
    }
    let def = match registry.get_clip(name) {
        Some(d) => d,
        None => return Ok(()),
    };
    let compiled = match compile_clip(def, clock, registry) {
        Ok(c) => c,
        Err(e) => return Err(e),
    };
    let taken = scene.take();
    match taken {
        Some(mut s) => {
            let ghost before = s;
            proof {
                crate::control::lemma_first_named(before, name@);
            }
            let ghost staged = compiled;
            proof {
                crate::voicing::law_compiled_events_have_channels(registry@, *clock, *def);
                crate::voicing::lemma_clip_channels(staged);
            }
            s.replace_clip(name, compiled);
            proof {
                assert forall|i: int| 0 <= i < s.players_spec().len() implies crate::control::player_voiced(
                    (#[trigger] s.players_spec()[i]).1,
                ) by {
                    if !(first_named(before.players_spec(), name@, i)) {
                        let f = choose|f: int| first_named(before.players_spec(), name@, f);
                        if i != f {
                            assert(s.players_spec()[i] == before.players_spec()[i]);
                        }
                    }
                    assert(crate::control::player_voiced(before.players_spec()[i].1));
                }
            }
            *scene = Some(s);
        },
        None => {},
    }
    request_force_scene_advance_if_session(view, force);
    Ok(())
}

/// After the scene `name` was (re)defined: a playing session whose
/// current scene it is is asked to move on at the next grid boundary,
/// where the new arrangement plays.
pub fn scene_redefined(view: &PlaybackView, scene_name: &Option<String>, name: &str, force: &mut bool)
    ensures
        *final(force) == (*old(force) || (scene_name matches Some(n) && n@ == name@ && view.playing && view.session)),
{
    let is_active = match scene_name {
        Some(n) => same_text(n, name),
        None => false,
    };
    if is_active {
        request_force_scene_advance_if_session(view, force);
    }
}

/// After the session `name` was (re)defined: when it is the session that
/// plays, it is asked to move on at the next grid boundary.
pub fn session_redefined(view: &PlaybackView, name: &str, force: &mut bool)
    ensures
        *final(force) == (*old(force) || (view.playing && view.session && names_current(*view, name@))),
{
    if is_playing_session_named(view, name) {
        *force = true;
    }
}

} // verus!
