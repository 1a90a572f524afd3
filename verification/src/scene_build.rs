//! Building the player of a scene: one loop's clips are resolved, each is
//! looked up and compiled, played looping under its name, and the clips of
//! entries marked muted start muted.

use vstd::prelude::*;

use rand::rngs::StdRng;

use crate::ast::SceneDef;
use crate::clock::Clock;
use crate::control::channels_known;
use crate::voicing::law_built_scene_has_channels;
use crate::compiler::{compile_clip, clip_spec, reports, view_clip, ClipView, CompileFailure};
use crate::error::EngineError;
use crate::player::{first_named, only_player_changed, ClipPlayer, ScenePlayer};
use crate::registry::{Registry, RegistryModel};
use crate::scene_runner::{initial_muted_clips, muted_candidates, name_texts, possible_selection, resolve_scene};

verus! {

/// Why a scene's player cannot be built.
pub enum BuildFailure {
    /// A selected clip is not registered.
    UnknownClip(Seq<char>),
    /// A selected clip does not compile.
    Compile(CompileFailure),
}

/// The engine error `e` reports the failure `f`.
pub open spec fn reports_build(e: EngineError, f: BuildFailure) -> bool {
    match f {
        BuildFailure::UnknownClip(n) => e matches EngineError::UnknownClip(s) && s@ == n,
        BuildFailure::Compile(c) => reports(e, c),
    }
}

/// The compiled clips of the first `k` selected names, in order; the
/// first name that is not registered or does not compile fails.
pub open spec fn scene_clips(reg: RegistryModel, clock: Clock, names: Seq<Seq<char>>, k: int) -> Result<Seq<ClipView>, BuildFailure>
    decreases k,
{
    if k <= 0 {
        Ok(Seq::empty())
    } else {
        match scene_clips(reg, clock, names, k - 1) {
            Err(f) => Err(f),
            Ok(v) => {
                let n = names[k - 1];
                if !reg.clips.contains_key(n) {
                    Err(BuildFailure::UnknownClip(n))
                } else {
                    match clip_spec(reg, clock, reg.clips[n]) {
                        Err(f) => Err(BuildFailure::Compile(f)),
                        Ok(c) => Ok(v.push(c)),
                    }
                }
            },
        }
    }
}

/// `p` is the player of a scene whose selected clips `names` compiled to
/// `clips`: one looping player per name, in order, at tick 0, not paused,
/// and muted exactly for the first player of each name in `muted`.
pub open spec fn scene_built(p: ScenePlayer, names: Seq<Seq<char>>, clips: Seq<ClipView>, muted: Set<Seq<char>>) -> bool {
    &&& p.wf()
    &&& p.players_spec().len() == names.len()
    &&& forall|i: int|
        0 <= i < names.len() ==> {
            let (name, player) = #[trigger] p.players_spec()[i];
            &&& name@ == names[i]
            &&& view_clip(player.clip_spec()) == clips[i]
            &&& player.pending_spec() is None
            &&& player.tick_spec() == 0
            &&& player.looping_spec()
            &&& !player.paused_spec()
            &&& player.muted_spec() == (muted.contains(names[i]) && first_named(p.players_spec(), names[i], i))
        }
}

/// What building a scene's player gives for the selection `names`.
pub open spec fn build_outcome(reg: RegistryModel, clock: Clock, scene: SceneDef, names: Seq<Seq<char>>, r: Result<ScenePlayer, EngineError>) -> bool {
    match scene_clips(reg, clock, names, names.len() as int) {
        Ok(clips) => r matches Ok(p) && scene_built(p, names, clips, muted_candidates(scene.entries@)),
        Err(f) => r matches Err(e) && reports_build(e, f),
    }
}

/// Once a prefix of the names fails, all of them fail the same.
proof fn lemma_scene_clips_err(reg: RegistryModel, clock: Clock, names: Seq<Seq<char>>, i: int, n: int)
    requires
        0 <= i <= n,
        scene_clips(reg, clock, names, i) is Err,
    ensures
        scene_clips(reg, clock, names, n) == scene_clips(reg, clock, names, i),
    decreases n - i,
{
    if i < n {
        lemma_scene_clips_err(reg, clock, names, i, n - 1);
    }
}

/// Entries with the same names have the same first entries.
proof fn lemma_first_named_same_names(a: Seq<(String, ClipPlayer)>, b: Seq<(String, ClipPlayer)>, name: Seq<char>, i: int)
    requires
        a.len() == b.len(),
        forall|u: int| 0 <= u < a.len() ==> (#[trigger] a[u]).0 == b[u].0,
    ensures
        first_named(a, name, i) == first_named(b, name, i),
{
    if 0 <= i < a.len() {
        assert(a[i].0 == b[i].0);
        if first_named(a, name, i) {
            assert forall|j: int| 0 <= j < i implies (#[trigger] b[j]).0@ != name by {
                assert(a[j].0 == b[j].0);
            }
        }
        if first_named(b, name, i) {
            assert forall|j: int| 0 <= j < i implies (#[trigger] a[j]).0@ != name by {
                assert(a[j].0 == b[j].0);
            }
        }
    }
}

/// Builds the player of a scene for the clips `clips` selected for a loop:
/// see `build_outcome`.
pub fn build_scene_player_for(registry: &Registry, clock: &Clock, scene: &SceneDef, clips: &Vec<String>) -> (r: Result<ScenePlayer, EngineError>)
    requires
        registry.wf(),
    ensures
        build_outcome(registry@, *clock, *scene, name_texts(clips@), r),
        r matches Ok(p) ==> channels_known(p),
{
    let ghost names = name_texts(clips@);
    let mut player = ScenePlayer::new();
    let mut i: usize = 0;
    while i < clips.len()
        invariant
            registry.wf(),
            names == name_texts(clips@),
            i <= clips@.len(),
            player.wf(),
            player.players_spec().len() == i,
            scene_clips(registry@, *clock, names, i as int) is Ok,
            scene_clips(registry@, *clock, names, i as int)->Ok_0.len() == i,
            forall|j: int|
                0 <= j < i ==> {
                    let (name, p) = #[trigger] player.players_spec()[j];
                    &&& name@ == names[j]
                    &&& view_clip(p.clip_spec()) == scene_clips(registry@, *clock, names, i as int)->Ok_0[j]
                    &&& p.pending_spec() is None
                    &&& p.tick_spec() == 0
                    &&& p.looping_spec()
                    &&& !p.paused_spec()
                    &&& !p.muted_spec()
                },
        decreases clips@.len() - i,
    {
        let ghost before = scene_clips(registry@, *clock, names, i as int)->Ok_0;
        assert(names[i as int] == clips@[i as int]@);
        let def = match registry.get_clip(clips[i].as_str()) {
            Some(d) => d,
            None => {
                proof {
                    lemma_scene_clips_err(registry@, *clock, names, i + 1, names.len() as int);
                }
                return Err(EngineError::UnknownClip(clips[i].clone()));
            },
        };
        let compiled = match compile_clip(def, clock, registry) {
            Ok(c) => c,
            Err(e) => {
                proof {
                    lemma_scene_clips_err(registry@, *clock, names, i + 1, names.len() as int);
                }
                return Err(e);
            },
        };
        let ghost pre = player.players_spec();
        player.add_clip(clips[i].clone(), compiled, true);
        proof {
            let after = scene_clips(registry@, *clock, names, i + 1)->Ok_0;
            assert(after == before.push(view_clip(compiled)));
            assert forall|j: int| 0 <= j < i + 1 implies {
                let (name, p) = #[trigger] player.players_spec()[j];
                &&& name@ == names[j]
                &&& view_clip(p.clip_spec()) == after[j]
                &&& p.pending_spec() is None
                &&& p.tick_spec() == 0
                &&& p.looping_spec()
                &&& !p.paused_spec()
                &&& !p.muted_spec()
            } by {
                if j < i {
                    assert(player.players_spec()[j] == pre[j]);
                }
            }
        }
        i += 1;
    }
    assert(names.len() == clips@.len());
    let ghost built = player.players_spec();
    let ghost all = scene_clips(registry@, *clock, names, names.len() as int)->Ok_0;
    let muted = initial_muted_clips(scene);
    let ghost mset = muted_candidates(scene.entries@);
    let mut k: usize = 0;
    while k < clips.len()
        invariant
            names == name_texts(clips@),
            k <= clips@.len(),
            player.wf(),
            muted.wf(),
            muted@ == mset,
            player.players_spec().len() == names.len(),
            built.len() == names.len(),
            forall|j: int|
                0 <= j < names.len() ==> {
                    let (name, p) = #[trigger] player.players_spec()[j];
                    &&& name == built[j].0
                    &&& p.same_but_muted(built[j].1)
                    &&& p.muted_spec() == (mset.contains(names[j]) && first_named(player.players_spec(), names[j], j)
                        && exists|q: int| 0 <= q < k && #[trigger] names[q] == names[j])
                },
            forall|j: int| 0 <= j < names.len() ==> (#[trigger] built[j]).0@ == names[j],
            forall|j: int| 0 <= j < names.len() ==> !(#[trigger] built[j]).1.muted_spec(),
        decreases clips@.len() - k,
    {
        assert(names[k as int] == clips@[k as int]@);
        let ghost pre = player.players_spec();
        let ghost nm = names[k as int];
        if muted.contains(clips[k].as_str()) {
            proof {
                assert(pre[k as int] == player.players_spec()[k as int]);
                crate::control::lemma_first_named_from(pre, nm, k as int);
            }
            player.mute_clip(clips[k].as_str());
            proof {
                let f = choose|f: int| first_named(pre, nm, f);
                let cur = player.players_spec();
                assert(only_player_changed(pre, cur, f));
                assert forall|u: int| 0 <= u < cur.len() implies (#[trigger] cur[u]).0 == pre[u].0 by {
                    if u != f {
                        assert(cur[u] == pre[u]);
                    }
                }
                assert forall|j: int| 0 <= j < names.len() implies #[trigger] first_named(cur, names[j], j) == first_named(pre, names[j], j) by {
                    lemma_first_named_same_names(cur, pre, names[j], j);
                }
                assert forall|j: int| 0 <= j < names.len() implies {
                    let (name, p) = #[trigger] cur[j];
                    &&& name == built[j].0
                    &&& p.same_but_muted(built[j].1)
                    &&& p.muted_spec() == (mset.contains(names[j]) && first_named(cur, names[j], j) && exists|q: int|
                        0 <= q < k + 1 && #[trigger] names[q] == names[j])
                } by {
                    assert(first_named(cur, names[j], j) == first_named(pre, names[j], j));
                    if j == f {
                        assert(names[k as int] == names[j]);
                    } else {
                        assert(cur[j] == pre[j]);
                        if names[j] == nm {
                            assert(!first_named(pre, names[j], j)) by {
                                if first_named(pre, names[j], j) {
                                    if j < f {
                                        assert(pre[j].0@ != nm);
                                    } else {
                                        assert(pre[f].0@ != nm);
                                    }
                                }
                            }
                        } else {
                            assert((exists|q: int| 0 <= q < k + 1 && #[trigger] names[q] == names[j]) == (exists|q: int|
                                0 <= q < k && #[trigger] names[q] == names[j]));
                        }
                    }
                }
            }
        } else {
            proof {
                assert forall|j: int| 0 <= j < names.len() implies {
                    let (name, p) = #[trigger] player.players_spec()[j];
                    p.muted_spec() == (mset.contains(names[j]) && first_named(player.players_spec(), names[j], j) && exists|q: int|
                        0 <= q < k + 1 && #[trigger] names[q] == names[j])
                } by {
                    if names[j] != nm {
                        assert((exists|q: int| 0 <= q < k + 1 && #[trigger] names[q] == names[j]) == (exists|q: int|
                            0 <= q < k && #[trigger] names[q] == names[j]));
                    }
                }
            }
        }
        k += 1;
    }
    proof {
        assert(scene_built(player, names, all, mset));
        law_built_scene_has_channels(registry@, *clock, names, all, mset, player);
    }
    Ok(player)
}

/// `r` is what building the player of `scene` gives for some selection
/// that one loop of the scene can make; a player built carries channel
/// messages only.
pub open spec fn built_for(reg: RegistryModel, clock: Clock, scene: SceneDef, r: Result<ScenePlayer, EngineError>) -> bool {
    &&& exists|names: Seq<Seq<char>>| possible_selection(scene.entries@, names) && build_outcome(reg, clock, scene, names, r)
    &&& r matches Ok(p) ==> channels_known(p)
}

/// Builds the player of a scene for one loop: the clips are resolved with
/// `rng` (see `resolve_scene`), then built as `build_scene_player_for`
/// does.
pub fn build_scene_player(registry: &Registry, clock: &Clock, scene: &SceneDef, rng: &mut StdRng) -> (r: Result<ScenePlayer, EngineError>)
    requires
        registry.wf(),
    ensures
        built_for(registry@, *clock, *scene, r),
{
    let instance = resolve_scene(scene, rng);
    let r = build_scene_player_for(registry, clock, scene, &instance.clips);
    assert(possible_selection(scene.entries@, name_texts(instance.clips@)));
    r
}

} // verus!
