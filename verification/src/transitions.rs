//! What happens at the boundaries of a scene loop. When a loop ends, the
//! tempo entry of the scene that played applies, then the playback state
//! machine's decision is carried out: the scene plays again, playback
//! ends, or the session's next scene is built and plays. An edit of a
//! playing session asks it to move on at the next grid boundary; when it
//! has no entry to move on to, the playing scene is rebuilt from its
//! latest definition instead.

use vstd::prelude::*;

use rand::rngs::StdRng;

use crate::ast::{SceneDef, SceneEntry, Tempo};
use crate::clock::{clamp_i64, Clock};
use crate::control::live_scene;
use crate::error::EngineError;
use crate::player::ScenePlayer;
use crate::registry::{Registry, RegistryModel};
use crate::scene_build::{build_scene_player, built_for};
use crate::scene_runner::last_tempo;
use crate::text::owned;
use crate::timing::SceneTransitionOutcome;

verus! {

/// What the playback state machine decided at the end of a scene loop.
#[derive(Debug, Clone, PartialEq, Eq)]
pub enum NextAction {
    /// Play the same scene again.
    ContinueScene,
    /// The scene has played all its loops.
    SceneComplete,
    /// The session has played its last entry.
    SessionComplete,
    /// The session moves on to its next entry, which plays this scene.
    NextSessionEntry { scene_name: String },
}

/// The tempo change of a scene: its last tempo entry, if any.
pub fn extract_tempo_change(scene: &SceneDef) -> (r: Option<Tempo>)
    ensures
        r == last_tempo(scene.entries@),
{
    let mut found: Option<Tempo> = None;
    let mut i: usize = 0;
    while i < scene.entries.len()
        invariant
            i <= scene.entries@.len(),
            found == last_tempo(scene.entries@.take(i as int)),
        decreases scene.entries@.len() - i,
    {
        assert(scene.entries@.take(i + 1).drop_last() =~= scene.entries@.take(i as int));
        match &scene.entries[i] {
            SceneEntry::Tempo(t) => found = Some(*t),
            SceneEntry::Clip { .. } => {},
        }
        i += 1;
    }
    assert(scene.entries@.take(i as int) =~= scene.entries@);
    found
}

/// The tempo after `t` applies to `bpm`.
pub open spec fn tempo_after(bpm: int, t: Tempo) -> int {
    match t {
        Tempo::Absolute(v) => v as int,
        Tempo::Relative(d) => clamp_i64(bpm + d),
    }
}

/// The tempo change due when a loop of the scene registered as `name`
/// ends.
pub open spec fn tempo_due(reg: RegistryModel, name: Option<String>) -> Option<Tempo> {
    match name {
        Some(n) => if reg.scenes.contains_key(n@) {
            last_tempo(reg.scenes[n@].entries@)
        } else {
            None
        },
        None => None,
    }
}

/// `c1` is `c0` with the tempo change `t`, if any, applied.
pub open spec fn tempo_applied(c0: Clock, c1: Clock, t: Option<Tempo>) -> bool {
    match t {
        Some(t) => {
            &&& c1.bpm_spec() == tempo_after(c0.bpm_spec(), t)
            &&& c1.ppq_spec() == c0.ppq_spec()
            &&& c1.time_sig_spec() == c0.time_sig_spec()
        },
        None => c1 == c0,
    }
}

/// What carrying out `action` gives: the scene, its name and the outcome.
/// The next entry's scene is built with `clock`; a scene that is not
/// registered or cannot be built is an error that changes nothing.
pub open spec fn action_carried_out(
    reg: RegistryModel,
    clock: Clock,
    action: NextAction,
    s0: Option<ScenePlayer>,
    s1: Option<ScenePlayer>,
    n0: Option<String>,
    n1: Option<String>,
    r: Result<SceneTransitionOutcome, EngineError>,
) -> bool {
    match action {
        NextAction::ContinueScene => r == Ok::<SceneTransitionOutcome, EngineError>(SceneTransitionOutcome::Continue) && s1 == s0
            && n1 == n0,
        NextAction::SceneComplete => r == Ok::<SceneTransitionOutcome, EngineError>(SceneTransitionOutcome::SceneComplete)
            && s1 is None && n1 is None,
        NextAction::SessionComplete => r == Ok::<SceneTransitionOutcome, EngineError>(SceneTransitionOutcome::SessionComplete)
            && s1 is None && n1 is None,
        NextAction::NextSessionEntry { scene_name } => if !reg.scenes.contains_key(scene_name@) {
            &&& r matches Err(EngineError::UnknownScene(x)) && x@ == scene_name@
            &&& s1 == s0 && n1 == n0
        } else {
            exists|b: Result<ScenePlayer, EngineError>|
                #[trigger] built_for(reg, clock, reg.scenes[scene_name@], b) && match b {
                    Ok(p) => {
                        &&& r matches Ok(SceneTransitionOutcome::NextScene { scene_name: x }) && x@ == scene_name@
                        &&& s1 == Some(p)
                        &&& n1 matches Some(m) && m@ == scene_name@
                    },
                    Err(e) => r == Err::<SceneTransitionOutcome, EngineError>(e) && s1 == s0 && n1 == n0,
                }
        },
    }
}

/// Carries out the playback state machine's decision `action`: see
/// `action_carried_out`.
pub fn apply_next_action(
    registry: &Registry,
    clock: &Clock,
    scene: &mut Option<ScenePlayer>,
    scene_name: &mut Option<String>,
    action: NextAction,
    rng: &mut StdRng,
) -> (r: Result<SceneTransitionOutcome, EngineError>)
    requires
        registry.wf(),
        live_scene(*old(scene)),
    ensures
        live_scene(*final(scene)),
        action_carried_out(registry@, *clock, action, *old(scene), *final(scene), *old(scene_name), *final(scene_name), r),
{
    match action {
        NextAction::ContinueScene => Ok(SceneTransitionOutcome::Continue),
        NextAction::SceneComplete => {
            *scene = None;
            *scene_name = None;
            Ok(SceneTransitionOutcome::SceneComplete)
        },
        NextAction::SessionComplete => {
            *scene = None;
            *scene_name = None;
            Ok(SceneTransitionOutcome::SessionComplete)
        },
        NextAction::NextSessionEntry { scene_name: next } => {
            let def = match registry.get_scene(next.as_str()) {
                Some(d) => d,
                None => return Err(EngineError::UnknownScene(next)),
            };
            let b = build_scene_player(registry, clock, def, rng);
            match b {
                Ok(p) => {
                    *scene = Some(p);
                    *scene_name = Some(owned(next.as_str()));
                    Ok(SceneTransitionOutcome::NextScene { scene_name: next })
                },
                Err(e) => Err(e),
            }
        },
    }
}

/// One loop of the playing scene ended: the scene's tempo entry applies to
/// the clock, then `action`, the playback state machine's decision, is
/// carried out with the new tempo (see `action_carried_out`).
pub fn on_scene_loop_complete(
    registry: &Registry,
    clock: &mut Clock,
    scene: &mut Option<ScenePlayer>,
    scene_name: &mut Option<String>,
    action: NextAction,
    rng: &mut StdRng,
) -> (r: Result<SceneTransitionOutcome, EngineError>)
    requires
        registry.wf(),
        live_scene(*old(scene)),
    ensures
        live_scene(*final(scene)),
        tempo_applied(*old(clock), *final(clock), tempo_due(registry@, *old(scene_name))),
        action_carried_out(registry@, *final(clock), action, *old(scene), *final(scene), *old(scene_name), *final(scene_name), r),
{
    match scene_name {
        Some(name) => match registry.get_scene(name.as_str()) {
            Some(def) => match extract_tempo_change(def) {
                Some(t) => clock.apply_tempo(&t),
                None => {},
            },
            None => {},
        },
        None => {},
    }
    apply_next_action(registry, clock, scene, scene_name, action, rng)
}

/// At a grid boundary: when an edit asked for it (`force`), the request is
/// cleared and a session that has an entry to move on to must move on:
/// the result is `None`, and the state machine's decision is carried out
/// by `apply_next_action`. A session without such an entry keeps playing
/// its scene, rebuilt from the scene's latest definition. Without a
/// request nothing happens.
pub fn try_force_advance_session_on_grid(
    registry: &Registry,
    clock: &Clock,
    scene: &mut Option<ScenePlayer>,
    scene_name: &Option<String>,
    force: &mut bool,
    has_next_entry: bool,
    rng: &mut StdRng,
) -> (r: Result<Option<SceneTransitionOutcome>, EngineError>)
    requires
        registry.wf(),
        live_scene(*old(scene)),
    ensures
        live_scene(*final(scene)),
        !*final(force),
        if !*old(force) || has_next_entry {
            &&& r == Ok::<Option<SceneTransitionOutcome>, EngineError>(
                if *old(force) {
                    None
                } else {
                    Some(SceneTransitionOutcome::Continue)
                },
            )
            &&& *final(scene) == *old(scene)
        } else {
            match *scene_name {
                Some(n) if registry@.scenes.contains_key(n@) => exists|b: Result<ScenePlayer, EngineError>|
                    #[trigger] built_for(registry@, *clock, registry@.scenes[n@], b) && match b {
                        Ok(p) => r == Ok::<Option<SceneTransitionOutcome>, EngineError>(Some(SceneTransitionOutcome::Continue))
                            && *final(scene) == Some(p),
                        Err(e) => r == Err::<Option<SceneTransitionOutcome>, EngineError>(e) && *final(scene) == *old(scene),
                    },
                _ => r == Ok::<Option<SceneTransitionOutcome>, EngineError>(Some(SceneTransitionOutcome::Continue))
                    && *final(scene) == *old(scene),
            }
        },
{
    if !*force {
        return Ok(Some(SceneTransitionOutcome::Continue));
    }
    *force = false;
    if has_next_entry {
        return Ok(None);
    }
    match scene_name {
        Some(name) => match registry.get_scene(name.as_str()) {
            Some(def) => {
                let b = build_scene_player(registry, clock, def, rng);
                match b {
                    Ok(p) => {
                        *scene = Some(p);
                        Ok(Some(SceneTransitionOutcome::Continue))
                    },
                    Err(e) => Err(e),
                }
            },
            None => Ok(Some(SceneTransitionOutcome::Continue)),
        },
        None => Ok(Some(SceneTransitionOutcome::Continue)),
    }
}

} // verus!
