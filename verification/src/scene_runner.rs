//! Per-loop resolution of a scene: which clips play this time round
//! (probability and weighted shuffle) and whether the tempo changes; and
//! the clips that start muted when the scene becomes active.

use vstd::prelude::*;

use rand::rngs::StdRng;

use crate::ast::{SceneDef, SceneEntry, ShuffleCandidate, Tempo};
use crate::chance::{lemma_total_weight_nonneg, probability_check, total_weight, weighted_pick};
use crate::text::{owned, same_text};

verus! {

/// A set of names.
pub struct NameSet {
    names: Vec<String>,
}

/// The names of a list, as characters.
pub open spec fn name_texts(v: Seq<String>) -> Seq<Seq<char>> {
    v.map_values(|s: String| s@)
}

impl NameSet {
    /// The names held.
    pub closed spec fn view(self) -> Set<Seq<char>> {
        name_texts(self.names@).to_set()
    }

    /// No name is held twice.
    pub closed spec fn wf(self) -> bool {
        name_texts(self.names@).no_duplicates()
    }

    /// The empty set.
    pub fn new() -> (r: NameSet)
        ensures
            r.wf(),
            r@ == Set::<Seq<char>>::empty(),
    {
        let r = NameSet { names: Vec::new() };
        assert(name_texts(r.names@) =~= Seq::<Seq<char>>::empty());
        assert(r@ =~= Set::<Seq<char>>::empty());
        r
    }

    /// Whether `name` is in the set.
    pub fn contains(&self, name: &str) -> (r: bool)
        ensures
            r == self@.contains(name@),
    {
        let mut i: usize = 0;
        while i < self.names.len()
            invariant
                i <= self.names@.len(),
                forall|j: int| 0 <= j < i ==> name_texts(self.names@)[j] != name@,
            decreases self.names@.len() - i,
        {
            if same_text(&self.names[i], name) {
                assert(name_texts(self.names@)[i as int] == name@);
                return true;
            }
            i += 1;
        }
        false
    }

    /// Adds `name`; nothing changes if it is already there.
    pub fn insert(&mut self, name: String)
        requires
            old(self).wf(),
        ensures
            final(self).wf(),
            final(self)@ == old(self)@.insert(name@),
    {
        if !self.contains(name.as_str()) {
            let ghost pre = name_texts(self.names@);
            let ghost k = name@;
            self.names.push(name);
            proof {
                assert(name_texts(self.names@) =~= pre.push(k));
                pre.lemma_push_to_set_commute(k);
            }
        } else {
            assert(self@.insert(name@) =~= self@);
        }
    }

    /// Number of names.
    pub fn len(&self) -> (r: usize)
        requires
            self.wf(),
        ensures
            r == self@.len(),
    {
        proof {
            name_texts(self.names@).unique_seq_to_set();
        }
        self.names.len()
    }

    /// Whether the set is empty.
    pub fn is_empty(&self) -> (r: bool)
        requires
            self.wf(),
        ensures
            r == (self@.len() == 0),
    {
        proof {
            name_texts(self.names@).unique_seq_to_set();
        }
        self.names.len() == 0
    }
}

/// The clips that play in one loop of a scene, and its tempo change.
#[derive(Debug, Clone, PartialEq)]
pub struct SceneInstance {
    pub clips: Vec<String>,
    pub tempo_change: Option<Tempo>,
}

/// `name` is the clip of a candidate that can be picked (positive weight).
pub open spec fn pickable(c: Seq<ShuffleCandidate>, name: Seq<char>) -> bool {
    exists|i: int| 0 <= i < c.len() && 0 < c[i].weight && #[trigger] c[i].clip@ == name
}

/// Whether a clip entry can be left out of a loop: its probability can
/// fail, or no candidate can be picked.
pub open spec fn may_skip(c: Seq<ShuffleCandidate>, probability: Option<u8>) -> bool {
    (probability matches Some(p) && p < 10) || total_weight(c) == 0
}

/// Whether a clip entry can play: its probability is not 0 and some
/// candidate can be picked.
pub open spec fn may_play(c: Seq<ShuffleCandidate>, probability: Option<u8>) -> bool {
    probability != Some(0u8) && total_weight(c) > 0
}

/// `clips` is a selection that one loop of the scene entries can produce:
/// each clip entry contributes at most one of its pickable candidates, in
/// entry order; an entry that cannot fail and has a pickable candidate
/// always contributes; tempo entries contribute nothing.
pub open spec fn possible_selection(entries: Seq<SceneEntry>, clips: Seq<Seq<char>>) -> bool
    decreases entries.len(),
{
    if entries.len() == 0 {
        clips.len() == 0
    } else {
        match entries.last() {
            SceneEntry::Tempo(_) => possible_selection(entries.drop_last(), clips),
            SceneEntry::Clip { candidates, probability, .. } => {
                ||| (may_skip(candidates@, probability) && possible_selection(entries.drop_last(), clips))
                ||| (may_play(candidates@, probability) && clips.len() > 0 && pickable(candidates@, clips.last())
                    && possible_selection(entries.drop_last(), clips.drop_last()))
            },
        }
    }
}

/// The last tempo entry, if any.
pub open spec fn last_tempo(entries: Seq<SceneEntry>) -> Option<Tempo>
    decreases entries.len(),
{
    if entries.len() == 0 {
        None
    } else {
        match entries.last() {
            SceneEntry::Tempo(t) => Some(t),
            _ => last_tempo(entries.drop_last()),
        }
    }
}

/// Whether `e` is a muted clip entry with a candidate named `name`.
pub open spec fn entry_mutes(e: SceneEntry, name: Seq<char>) -> bool {
    match e {
        SceneEntry::Clip { candidates, muted, .. } => muted && exists|j: int|
            0 <= j < candidates@.len() && #[trigger] candidates@[j].clip@ == name,
        SceneEntry::Tempo(_) => false,
    }
}

/// The names of the candidates of the entries marked muted.
pub open spec fn muted_candidates(entries: Seq<SceneEntry>) -> Set<Seq<char>> {
    Set::new(|name: Seq<char>| exists|i: int| 0 <= i < entries.len() && #[trigger] entry_mutes(entries[i], name))
}

/// Resolves one loop of a scene: every clip entry passes its probability
/// and picks one candidate by weight, or plays nothing; the last tempo
/// entry gives the tempo change.
pub fn resolve_scene(scene: &SceneDef, rng: &mut StdRng) -> (r: SceneInstance)
    ensures
        possible_selection(scene.entries@, name_texts(r.clips@)),
        r.tempo_change == last_tempo(scene.entries@),
{
    let mut clips: Vec<String> = Vec::new();
    let mut tempo_change: Option<Tempo> = None;
    let n = scene.entries.len();
    let mut i: usize = 0;
    assert(scene.entries@.take(0) =~= Seq::<SceneEntry>::empty());
    assert(name_texts(clips@) =~= Seq::<Seq<char>>::empty());
    while i < n
        invariant
            n == scene.entries@.len(),
            i <= n,
            possible_selection(scene.entries@.take(i as int), name_texts(clips@)),
            tempo_change == last_tempo(scene.entries@.take(i as int)),
        decreases n - i,
    {
        let ghost pre = scene.entries@.take(i as int);
        let ghost cur = scene.entries@.take(i + 1);
        let ghost before = name_texts(clips@);
        assert(cur.drop_last() =~= pre);
        assert(cur.last() == scene.entries@[i as int]);
        match &scene.entries[i] {
            SceneEntry::Clip { candidates, probability, .. } => {
                proof { lemma_total_weight_nonneg(candidates@); }
                if probability_check(*probability, rng) {
                    match weighted_pick(candidates, rng) {
                        Some(picked) => {
                            clips.push(owned(picked));
                            assert(name_texts(clips@).drop_last() =~= before);
                            assert(name_texts(clips@).last() == picked@);
                            assert(may_play(candidates@, *probability));
                            assert(pickable(candidates@, picked@));
                        },
                        None => {
                            assert(may_skip(candidates@, *probability));
                        },
                    }
                } else {
                    assert(may_skip(candidates@, *probability));
                }
            },
            SceneEntry::Tempo(t) => {
                tempo_change = Some(*t);
            },
        }
        i += 1;
    }
    assert(scene.entries@.take(n as int) =~= scene.entries@);
    SceneInstance { clips, tempo_change }
}

/// The clips to load muted when the scene becomes active: every candidate
/// of every entry marked muted, whichever of them a loop picks.
pub fn initial_muted_clips(scene: &SceneDef) -> (r: NameSet)
    ensures
        r.wf(),
        r@ == muted_candidates(scene.entries@),
{
    let mut set = NameSet::new();
    let n = scene.entries.len();
    let mut i: usize = 0;
    while i < n
        invariant
            n == scene.entries@.len(),
            i <= n,
            set.wf(),
            set@ == muted_candidates(scene.entries@.take(i as int)),
        decreases n - i,
    {
        let ghost pre = scene.entries@.take(i as int);
        let ghost cur = scene.entries@.take(i + 1);
        match &scene.entries[i] {
            SceneEntry::Clip { candidates, muted, .. } => {
                if *muted {
                    let mut j: usize = 0;
                    while j < candidates.len()
                        invariant
                            n == scene.entries@.len(),
                            i < n,
                            scene.entries@[i as int] matches SceneEntry::Clip { candidates: cs, muted: m, .. } && m && cs
                                == *candidates,
                            j <= candidates@.len(),
                            set.wf(),
                            set@ == muted_candidates(pre).union(
                                Set::new(|name: Seq<char>| exists|k: int| 0 <= k < j && #[trigger] candidates@[k].clip@ == name),
                            ),
                        decreases candidates@.len() - j,
                    {
                        set.insert(candidates[j].clip.clone());
                        proof {
                            let old_part = Set::new(|name: Seq<char>| exists|k: int| 0 <= k < j && #[trigger] candidates@[k].clip@ == name);
                            let new_part = Set::new(|name: Seq<char>| exists|k: int| 0 <= k < j + 1 && #[trigger] candidates@[k].clip@ == name);
                            assert(new_part =~= old_part.insert(candidates@[j as int].clip@)) by {
                                assert forall|name: Seq<char>| new_part.contains(name) implies old_part.insert(candidates@[j as int].clip@).contains(name) by {
                                    let k = choose|k: int| 0 <= k < j + 1 && #[trigger] candidates@[k].clip@ == name;
                                    if k < j {
                                        assert(old_part.contains(name));
                                    }
                                }
                                assert forall|name: Seq<char>| old_part.insert(candidates@[j as int].clip@).contains(name) implies new_part.contains(name) by {
                                    if old_part.contains(name) {
                                        let k = choose|k: int| 0 <= k < j && #[trigger] candidates@[k].clip@ == name;
                                        assert(0 <= k < j + 1);
                                    }
                                }
                            }
                            assert(set@ =~= muted_candidates(pre).union(new_part));
                        }
                        j += 1;
                    }
                    proof {
                        let part = Set::new(|name: Seq<char>| exists|k: int| 0 <= k < j && #[trigger] candidates@[k].clip@ == name);
                        assert forall|name: Seq<char>| #[trigger] muted_candidates(cur).contains(name) == muted_candidates(pre).union(part).contains(name) by {
                            if muted_candidates(cur).contains(name) {
                                let a = choose|a: int| 0 <= a < cur.len() && #[trigger] entry_mutes(cur[a], name);
                                if a < i {
                                    assert(cur[a] == pre[a]);
                                    assert(muted_candidates(pre).contains(name));
                                } else {
                                    assert(cur[a] == scene.entries@[i as int]);
                                    assert(part.contains(name));
                                }
                            }
                            if muted_candidates(pre).contains(name) {
                                let a = choose|a: int| 0 <= a < pre.len() && #[trigger] entry_mutes(pre[a], name);
                                assert(cur[a] == pre[a]);
                            }
                            if part.contains(name) {
                                assert(cur[i as int] == scene.entries@[i as int]);
                                assert(entry_mutes(cur[i as int], name));
                            }
                        }
                        assert(set@ =~= muted_candidates(cur));
                    }
                } else {
                    proof { lemma_muted_candidates_step_unchanged(scene.entries@, i as int); }
                }
            },
            SceneEntry::Tempo(_) => {
                proof { lemma_muted_candidates_step_unchanged(scene.entries@, i as int); }
            },
        }
        i += 1;
    }
    assert(scene.entries@.take(n as int) =~= scene.entries@);
    set
}

/// An entry that is not a muted clip adds nothing to the muted set.
proof fn lemma_muted_candidates_step_unchanged(entries: Seq<SceneEntry>, i: int)
    requires
        0 <= i < entries.len(),
        forall|name: Seq<char>| !#[trigger] entry_mutes(entries[i], name),
    ensures
        muted_candidates(entries.take(i + 1)) == muted_candidates(entries.take(i)),
{
    let pre = entries.take(i);
    let cur = entries.take(i + 1);
    assert forall|name: Seq<char>| #[trigger] muted_candidates(cur).contains(name) == muted_candidates(pre).contains(name) by {
        if muted_candidates(cur).contains(name) {
            let a = choose|a: int| 0 <= a < cur.len() && #[trigger] entry_mutes(cur[a], name);
            assert(a != i);
            assert(cur[a] == pre[a]);
        }
        if muted_candidates(pre).contains(name) {
            let a = choose|a: int| 0 <= a < pre.len() && #[trigger] entry_mutes(pre[a], name);
            assert(cur[a] == pre[a]);
        }
    }
    assert(muted_candidates(cur) =~= muted_candidates(pre));
}

} // verus!
