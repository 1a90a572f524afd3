//! Playback state of compiled clips: a clip player that loops one clip,
//! with mute, pause, a clip waiting to be swapped in at the next loop
//! boundary and the per-loop random masks; and a scene player that drives
//! several clip players side by side (polyrhythm).

use vstd::prelude::*;

use std::collections::BTreeMap;
use std::collections::HashSet;

use rand::rngs::StdRng;

use crate::chance::{fresh_rng, random_index, should_trigger};
use crate::arith::{gcd, lcm, lcm_spec, lemma_gcd_divides, lemma_lcm_multiple};
use crate::compiler::{CompiledClip, MidiEvent};
use crate::domain::MidiChannel;
use crate::midi::MidiMessage;
use crate::text::same_text;

verus! {

broadcast use vstd::std_specs::hash::group_hash_axioms, vstd::std_specs::btree::group_btree_axioms, vstd::laws_cmp::group_laws_cmp;

/// The indices, ascending, of the first `n` events that fall on tick `t`.
pub open spec fn tick_indices_upto(events: Seq<MidiEvent>, t: u64, n: int) -> Seq<usize>
    decreases n,
{
    if n <= 0 {
        Seq::empty()
    } else if events[n - 1].tick == t {
        tick_indices_upto(events, t, n - 1).push((n - 1) as usize)
    } else {
        tick_indices_upto(events, t, n - 1)
    }
}

/// The indices, ascending, of the events that fall on tick `t`.
pub open spec fn tick_indices(events: Seq<MidiEvent>, t: u64) -> Seq<usize> {
    tick_indices_upto(events, t, events.len() as int)
}

/// The indices of `s` that are not in `masked`, in order.
pub open spec fn unmasked(s: Seq<usize>, masked: Set<usize>) -> Seq<usize> {
    s.filter(|i: usize| !masked.contains(i))
}

/// The events masked for a loop, given the outcome of each drum group's
/// roll (`fails`) and the candidate chosen in each random group.
pub open spec fn mask_of(clip: CompiledClip, fails: Seq<bool>, chosen: Seq<int>) -> Set<usize> {
    Set::new(
        |idx: usize|
            (exists|g: int|
                0 <= g < clip.drum_mask_groups@.len() && fails[g] && #[trigger] clip.drum_mask_groups@[g].event_indices@.contains(idx))
            || (exists|g: int, c: int|
                0 <= g < clip.random_choice_groups@.len() && 0 <= c < clip.random_choice_groups@[g].candidates@.len()
                    && c != chosen[g] && #[trigger] clip.random_choice_groups@[g].candidates@[c]@.contains(idx)),
    )
}

/// Roll outcomes that a reroll can produce: a drum group with probability
/// 0 always fails, one with 100 or more never does, and each random group
/// with candidates chooses one of them.
pub open spec fn valid_rolls(clip: CompiledClip, fails: Seq<bool>, chosen: Seq<int>) -> bool {
    &&& fails.len() == clip.drum_mask_groups@.len()
    &&& chosen.len() == clip.random_choice_groups@.len()
    &&& forall|g: int| 0 <= g < fails.len() ==> (#[trigger] clip.drum_mask_groups@[g]).probability == 0 ==> fails[g]
    &&& forall|g: int| 0 <= g < fails.len() ==> (#[trigger] clip.drum_mask_groups@[g]).probability >= 100 ==> !fails[g]
    &&& forall|g: int|
        0 <= g < chosen.len() && (#[trigger] clip.random_choice_groups@[g]).candidates@.len() > 0 ==> 0 <= chosen[g]
            < clip.random_choice_groups@[g].candidates@.len()
}

/// `masked` is the mask of one possible reroll of `clip`.
pub open spec fn is_reroll_of(clip: CompiledClip, masked: Set<usize>) -> bool {
    exists|fails: Seq<bool>, chosen: Seq<int>| valid_rolls(clip, fails, chosen) && masked == mask_of(clip, fails, chosen)
}

/// The tick index of a clip: each tick at which events fall maps to their
/// indices, ascending.
pub open spec fn indexes(index: Map<u64, Vec<usize>>, events: Seq<MidiEvent>) -> bool {
    forall|t: u64|
        #![trigger index.contains_key(t)]
        #![trigger tick_indices(events, t)]
        (index.contains_key(t) <==> tick_indices(events, t).len() > 0) && (index.contains_key(t) ==> index[t]@
            == tick_indices(events, t))
}

/// Plays one compiled clip.
pub struct ClipPlayer {
    clip: CompiledClip,
    /// Clip swapped in at the next loop boundary or commit.
    pending_clip: Option<CompiledClip>,
    current_tick: u64,
    looping: bool,
    /// Muted: no events are returned, time goes on.
    muted: bool,
    /// Paused: no events are returned and time stands still.
    paused: bool,
    /// Events silenced for the current loop by the probability and
    /// random-choice rolls.
    masked_events: HashSet<usize>,
    /// Tick to the indices of the events at that tick.
    events_by_tick: BTreeMap<u64, Vec<usize>>,
}

impl ClipPlayer {
    pub closed spec fn clip_spec(self) -> CompiledClip {
        self.clip
    }

    pub closed spec fn pending_spec(self) -> Option<CompiledClip> {
        self.pending_clip
    }

    pub closed spec fn tick_spec(self) -> u64 {
        self.current_tick
    }

    pub closed spec fn looping_spec(self) -> bool {
        self.looping
    }

    pub closed spec fn muted_spec(self) -> bool {
        self.muted
    }

    pub closed spec fn paused_spec(self) -> bool {
        self.paused
    }

    pub closed spec fn masked_spec(self) -> Set<usize> {
        self.masked_events@
    }

    /// The tick index matches the clip.
    pub closed spec fn wf(self) -> bool {
        indexes(self.events_by_tick@, self.clip.events@)
    }

    /// The position within the loop that tick `tick` plays.
    pub open spec fn effective_spec(self, tick: u64) -> u64 {
        if self.clip_spec().total_ticks == 0 {
            0
        } else {
            (tick % self.clip_spec().total_ticks) as u64
        }
    }

    /// The indices of the events played at tick `tick`: none while muted or
    /// paused, none past the end of a clip that does not loop; else the
    /// unmasked events at the position within the loop.
    pub open spec fn visible_at(self, tick: u64) -> Seq<usize> {
        if self.muted_spec() || self.paused_spec() {
            Seq::empty()
        } else if !self.looping_spec() && tick >= self.clip_spec().total_ticks {
            Seq::empty()
        } else {
            unmasked(tick_indices(self.clip_spec().events@, self.effective_spec(tick)), self.masked_spec())
        }
    }

    /// Everything but the mute flag is the same.
    pub open spec fn same_but_muted(self, other: ClipPlayer) -> bool {
        &&& self.clip_spec() == other.clip_spec()
        &&& self.pending_spec() == other.pending_spec()
        &&& self.tick_spec() == other.tick_spec()
        &&& self.looping_spec() == other.looping_spec()
        &&& self.paused_spec() == other.paused_spec()
        &&& self.masked_spec() == other.masked_spec()
    }

    /// Everything but the pause flag is the same.
    pub open spec fn same_but_paused(self, other: ClipPlayer) -> bool {
        &&& self.clip_spec() == other.clip_spec()
        &&& self.pending_spec() == other.pending_spec()
        &&& self.tick_spec() == other.tick_spec()
        &&& self.looping_spec() == other.looping_spec()
        &&& self.muted_spec() == other.muted_spec()
        &&& self.masked_spec() == other.masked_spec()
    }

    /// A fresh player for `clip` (not muted, not paused, at tick 0) with
    /// the masks of one reroll.
    pub open spec fn fresh(self, clip: CompiledClip, looping: bool) -> bool {
        &&& self.clip_spec() == clip
        &&& self.pending_spec() is None
        &&& self.tick_spec() == 0
        &&& self.looping_spec() == looping
        &&& !self.muted_spec()
        &&& !self.paused_spec()
        &&& is_reroll_of(clip, self.masked_spec())
    }

    /// Whether advancing from `tick` by `ticks` crosses a loop boundary of
    /// a looping clip of `total` ticks.
    pub open spec fn crosses_loop(looping: bool, total: u64, tick: u64, ticks: u64) -> bool {
        looping && total > 0 && (tick + ticks) / (total as int) > (tick as int) / (total as int)
    }

    /// The inputs on which `advance` is defined: the tick does not
    /// overflow, and a clip swapped in at the boundary is not empty.
    pub open spec fn can_advance(self, ticks: u64) -> bool {
        &&& self.tick_spec() + ticks <= u64::MAX
        &&& (!self.paused_spec() && Self::crosses_loop(
            self.looping_spec(),
            self.clip_spec().total_ticks,
            self.tick_spec(),
            ticks,
        ) && self.pending_spec() is Some) ==> self.pending_spec()->Some_0.total_ticks > 0
    }

    /// `new` is the state after `old` advances by `ticks`: paused players
    /// stand still; otherwise the tick moves on, and at a loop boundary a
    /// waiting clip is swapped in (keeping the position within the loop)
    /// and the masks are rerolled.
    pub open spec fn advanced(old: ClipPlayer, new: ClipPlayer, ticks: u64) -> bool {
        &&& new.looping_spec() == old.looping_spec()
        &&& new.muted_spec() == old.muted_spec()
        &&& new.paused_spec() == old.paused_spec()
        &&& if old.paused_spec() {
            new == old
        } else if !Self::crosses_loop(old.looping_spec(), old.clip_spec().total_ticks, old.tick_spec(), ticks) {
            &&& new.clip_spec() == old.clip_spec()
            &&& new.pending_spec() == old.pending_spec()
            &&& new.tick_spec() == old.tick_spec() + ticks
            &&& new.masked_spec() == old.masked_spec()
        } else {
            match old.pending_spec() {
                Some(p) => {
                    &&& new.clip_spec() == p
                    &&& new.pending_spec() is None
                    &&& new.tick_spec() == (old.tick_spec() + ticks) % (p.total_ticks as int)
                    &&& is_reroll_of(p, new.masked_spec())
                },
                None => {
                    &&& new.clip_spec() == old.clip_spec()
                    &&& new.pending_spec() is None
                    &&& new.tick_spec() == old.tick_spec() + ticks
                    &&& is_reroll_of(old.clip_spec(), new.masked_spec())
                },
            }
        }
    }
}

impl ClipPlayer {
    /// `new` is `old` with its waiting clip, if any, swapped in to play
    /// from its head: the clip is the waiting one, none waits, the tick is
    /// 0 and the masks are those of one reroll; the flags stay. Without a
    /// waiting clip, `new` is `old`.
    pub open spec fn committed(old: ClipPlayer, new: ClipPlayer) -> bool {
        match old.pending_spec() {
            Some(c) => {
                &&& new.clip_spec() == c
                &&& new.pending_spec() is None
                &&& new.tick_spec() == 0
                &&& new.looping_spec() == old.looping_spec()
                &&& new.muted_spec() == old.muted_spec()
                &&& new.paused_spec() == old.paused_spec()
                &&& is_reroll_of(c, new.masked_spec())
            },
            None => new == old,
        }
    }
}

/// `s1` is `s0` with every player's waiting clip swapped in (see
/// `ClipPlayer::committed`), names and order kept.
pub open spec fn scene_committed(s0: ScenePlayer, s1: ScenePlayer) -> bool {
    &&& s1.players_spec().len() == s0.players_spec().len()
    &&& forall|i: int|
        0 <= i < s0.players_spec().len() ==> (#[trigger] s1.players_spec()[i]).0 == s0.players_spec()[i].0
            && ClipPlayer::committed(s0.players_spec()[i].1, s1.players_spec()[i].1)
}

/// Every element of `tick_indices_upto(events, t, n)` is an index below
/// `n` of an event at `t`.
proof fn lemma_tick_indices_bounds(events: Seq<MidiEvent>, t: u64, n: int)
    requires
        0 <= n <= events.len(),
        events.len() <= usize::MAX,
    ensures
        forall|k: int|
            0 <= k < tick_indices_upto(events, t, n).len() ==> (#[trigger] tick_indices_upto(events, t, n)[k]) < n
                && events[tick_indices_upto(events, t, n)[k] as int].tick == t,
    decreases n,
{
    if n > 0 {
        lemma_tick_indices_bounds(events, t, n - 1);
        let prev = tick_indices_upto(events, t, n - 1);
        let cur = tick_indices_upto(events, t, n);
        assert forall|k: int| 0 <= k < cur.len() implies (#[trigger] cur[k]) < n && events[cur[k] as int].tick == t by {
            if k < prev.len() {
                assert(cur[k] == prev[k]);
            }
        }
    }
}

/// The union of the event indices of the drum groups before `g` whose
/// roll failed.
pub open spec fn drum_union(clip: CompiledClip, fails: Seq<bool>, g: int) -> Set<usize> {
    Set::new(
        |idx: usize|
            exists|h: int| 0 <= h < g && fails[h] && #[trigger] clip.drum_mask_groups@[h].event_indices@.contains(idx),
    )
}

/// The union of the unchosen candidates of the random groups before `g`,
/// counting only candidates before `c` in group `g`.
pub open spec fn random_union(clip: CompiledClip, chosen: Seq<int>, g: int, c: int) -> Set<usize> {
    Set::new(
        |idx: usize|
            (exists|h: int, d: int|
                0 <= h < g && 0 <= d < clip.random_choice_groups@[h].candidates@.len() && d != chosen[h]
                    && #[trigger] clip.random_choice_groups@[h].candidates@[d]@.contains(idx)) || (exists|d: int|
                0 <= d < c && d != chosen[g] && #[trigger] clip.random_choice_groups@[g].candidates@[d]@.contains(idx)),
    )
}

/// Inserts every element of `v` into `set`.
fn insert_all(set: &mut HashSet<usize>, v: &Vec<usize>)
    ensures
        final(set)@ == old(set)@ + v@.to_set(),
{
    let ghost pre = set@;
    let mut i: usize = 0;
    while i < v.len()
        invariant
            i <= v@.len(),
            set@ == pre + v@.subrange(0, i as int).to_set(),
        decreases v@.len() - i,
    {
        set.insert(v[i]);
        proof {
            assert(v@.subrange(0, i + 1) =~= v@.subrange(0, i as int).push(v@[i as int]));
            v@.subrange(0, i as int).lemma_push_to_set_commute(v@[i as int]);
        }
        i += 1;
    }
    assert(v@.subrange(0, i as int) =~= v@);
    assert(set@ =~= pre + v@.to_set());
}

/// The masks for given roll outcomes.
pub fn masks_from_rolls(clip: &CompiledClip, fails: &Vec<bool>, chosen: &Vec<usize>) -> (r: HashSet<usize>)
    requires
        fails@.len() == clip.drum_mask_groups@.len(),
        chosen@.len() == clip.random_choice_groups@.len(),
    ensures
        r@ == mask_of(*clip, fails@, chosen@.map_values(|c: usize| c as int)),
{
    let ghost ch = chosen@.map_values(|c: usize| c as int);
    let mut masked: HashSet<usize> = HashSet::new();
    let nd = clip.drum_mask_groups.len();
    let mut g: usize = 0;
    assert(masked@ =~= drum_union(*clip, fails@, 0));
    while g < nd
        invariant
            nd == clip.drum_mask_groups@.len(),
            fails@.len() == nd,
            g <= nd,
            masked@ == drum_union(*clip, fails@, g as int),
        decreases nd - g,
    {
        if fails[g] {
            insert_all(&mut masked, &clip.drum_mask_groups[g].event_indices);
        }
        proof {
            assert forall|idx: usize| #[trigger] masked@.contains(idx) == drum_union(*clip, fails@, g + 1).contains(idx) by {
                if drum_union(*clip, fails@, g + 1).contains(idx) {
                    let h = choose|h: int| 0 <= h < g + 1 && fails@[h] && #[trigger] clip.drum_mask_groups@[h].event_indices@.contains(idx);
                    if h < g {
                        assert(drum_union(*clip, fails@, g as int).contains(idx));
                    } else {
                        assert(clip.drum_mask_groups@[h].event_indices@.to_set().contains(idx));
                    }
                }
                if masked@.contains(idx) && !drum_union(*clip, fails@, g as int).contains(idx) {
                    assert(fails@[g as int]);
                    assert(clip.drum_mask_groups@[g as int].event_indices@.to_set().contains(idx));
                    assert(clip.drum_mask_groups@[g as int].event_indices@.contains(idx));
                }
                if drum_union(*clip, fails@, g as int).contains(idx) {
                    let h = choose|h: int| 0 <= h < g && fails@[h] && #[trigger] clip.drum_mask_groups@[h].event_indices@.contains(idx);
                    assert(0 <= h < g + 1);
                }
            }
            assert(masked@ =~= drum_union(*clip, fails@, g + 1));
        }
        g += 1;
    }
    let ghost drums = masked@;
    let nr = clip.random_choice_groups.len();
    let mut g: usize = 0;
    assert(masked@ =~= drums + random_union(*clip, ch, 0, 0));
    while g < nr
        invariant
            nr == clip.random_choice_groups@.len(),
            chosen@.len() == nr,
            ch == chosen@.map_values(|c: usize| c as int),
            g <= nr,
            masked@ == drums + random_union(*clip, ch, g as int, 0),
        decreases nr - g,
    {
        let nc = clip.random_choice_groups[g].candidates.len();
        let mut c: usize = 0;
        while c < nc
            invariant
                nr == clip.random_choice_groups@.len(),
                chosen@.len() == nr,
                ch == chosen@.map_values(|c: usize| c as int),
                g < nr,
                nc == clip.random_choice_groups@[g as int].candidates@.len(),
                c <= nc,
                masked@ == drums + random_union(*clip, ch, g as int, c as int),
            decreases nc - c,
        {
            if c != chosen[g] {
                insert_all(&mut masked, &clip.random_choice_groups[g].candidates[c]);
            }
            proof {
                let gg = g as int;
                let cc = c as int;
                let cand = clip.random_choice_groups@[gg].candidates@[cc]@;
                assert forall|idx: usize| #[trigger] masked@.contains(idx) == (drums + random_union(*clip, ch, gg, cc + 1)).contains(idx) by {
                    if random_union(*clip, ch, gg, cc + 1).contains(idx) && !random_union(*clip, ch, gg, cc).contains(idx) {
                        let d = choose|d: int| 0 <= d < cc + 1 && d != ch[gg] && #[trigger] clip.random_choice_groups@[gg].candidates@[d]@.contains(idx);
                        if d < cc {
                            assert(random_union(*clip, ch, gg, cc).contains(idx));
                        } else {
                            assert(cand.to_set().contains(idx));
                        }
                    }
                    if random_union(*clip, ch, gg, cc).contains(idx) {
                        if exists|d: int| 0 <= d < cc && d != ch[gg] && #[trigger] clip.random_choice_groups@[gg].candidates@[d]@.contains(idx) {
                            let d = choose|d: int| 0 <= d < cc && d != ch[gg] && #[trigger] clip.random_choice_groups@[gg].candidates@[d]@.contains(idx);
                            assert(0 <= d < cc + 1);
                        }
                    }
                    if masked@.contains(idx) && !(drums + random_union(*clip, ch, gg, cc)).contains(idx) {
                        assert(cc != ch[gg]);
                        assert(cand.to_set().contains(idx));
                        assert(cand.contains(idx));
                    }
                }
                assert(masked@ =~= drums + random_union(*clip, ch, gg, cc + 1));
            }
            c += 1;
        }
        proof {
            let gg = g as int;
            assert forall|idx: usize| #[trigger] random_union(*clip, ch, gg, nc as int).contains(idx) == random_union(*clip, ch, gg + 1, 0).contains(idx) by {
                if random_union(*clip, ch, gg + 1, 0).contains(idx) {
                    let (h, d) = choose|h: int, d: int|
                        0 <= h < gg + 1 && 0 <= d < clip.random_choice_groups@[h].candidates@.len() && d != ch[h]
                            && #[trigger] clip.random_choice_groups@[h].candidates@[d]@.contains(idx);
                    if h == gg {
                        assert(0 <= d < nc);
                    }
                }
                if random_union(*clip, ch, gg, nc as int).contains(idx) {
                    if exists|d: int| 0 <= d < nc && d != ch[gg] && #[trigger] clip.random_choice_groups@[gg].candidates@[d]@.contains(idx) {
                        let d = choose|d: int| 0 <= d < nc && d != ch[gg] && #[trigger] clip.random_choice_groups@[gg].candidates@[d]@.contains(idx);
                        assert(0 <= gg < gg + 1);
                    } else {
                        let (h, d) = choose|h: int, d: int|
                            0 <= h < gg && 0 <= d < clip.random_choice_groups@[h].candidates@.len() && d != ch[h]
                                && #[trigger] clip.random_choice_groups@[h].candidates@[d]@.contains(idx);
                        assert(0 <= h < gg + 1);
                    }
                }
            }
            assert(random_union(*clip, ch, gg, nc as int) =~= random_union(*clip, ch, gg + 1, 0));
        }
        g += 1;
    }
    proof {
        assert forall|idx: usize| #[trigger] masked@.contains(idx) == mask_of(*clip, fails@, ch).contains(idx) by {
            if drum_union(*clip, fails@, nd as int).contains(idx) {
                let h = choose|h: int| 0 <= h < nd && fails@[h] && #[trigger] clip.drum_mask_groups@[h].event_indices@.contains(idx);
            }
            if random_union(*clip, ch, nr as int, 0).contains(idx) {
                let (h, d) = choose|h: int, d: int|
                    0 <= h < nr && 0 <= d < clip.random_choice_groups@[h].candidates@.len() && d != ch[h]
                        && #[trigger] clip.random_choice_groups@[h].candidates@[d]@.contains(idx);
            }
            if mask_of(*clip, fails@, ch).contains(idx) {
                if exists|g: int| 0 <= g < clip.drum_mask_groups@.len() && fails@[g] && #[trigger] clip.drum_mask_groups@[g].event_indices@.contains(idx) {
                    let h = choose|h: int| 0 <= h < clip.drum_mask_groups@.len() && fails@[h] && #[trigger] clip.drum_mask_groups@[h].event_indices@.contains(idx);
                    assert(drum_union(*clip, fails@, nd as int).contains(idx));
                } else {
                    let (h, d) = choose|h: int, d: int|
                        0 <= h < clip.random_choice_groups@.len() && 0 <= d < clip.random_choice_groups@[h].candidates@.len() && d != ch[h]
                            && #[trigger] clip.random_choice_groups@[h].candidates@[d]@.contains(idx);
                    assert(random_union(*clip, ch, nr as int, 0).contains(idx));
                }
            }
        }
        assert(masked@ =~= mask_of(*clip, fails@, ch));
    }
    masked
}

/// Draws the roll outcomes of one reroll of `clip`.
fn draw_rolls(clip: &CompiledClip, rng: &mut StdRng) -> (r: (Vec<bool>, Vec<usize>))
    ensures
        valid_rolls(*clip, r.0@, r.1@.map_values(|c: usize| c as int)),
{
    let mut fails: Vec<bool> = Vec::new();
    let nd = clip.drum_mask_groups.len();
    let mut g: usize = 0;
    while g < nd
        invariant
            nd == clip.drum_mask_groups@.len(),
            g <= nd,
            fails@.len() == g,
            forall|h: int| 0 <= h < g ==> (#[trigger] clip.drum_mask_groups@[h]).probability == 0 ==> fails@[h],
            forall|h: int| 0 <= h < g ==> (#[trigger] clip.drum_mask_groups@[h]).probability >= 100 ==> !fails@[h],
        decreases nd - g,
    {
        let hit = should_trigger(Some(clip.drum_mask_groups[g].probability), rng);
        fails.push(!hit);
        g += 1;
    }
    let mut chosen: Vec<usize> = Vec::new();
    let nr = clip.random_choice_groups.len();
    let mut g: usize = 0;
    while g < nr
        invariant
            nr == clip.random_choice_groups@.len(),
            g <= nr,
            chosen@.len() == g,
            forall|h: int|
                0 <= h < g && (#[trigger] clip.random_choice_groups@[h]).candidates@.len() > 0 ==> chosen@[h]
                    < clip.random_choice_groups@[h].candidates@.len(),
        decreases nr - g,
    {
        let n = clip.random_choice_groups[g].candidates.len();
        if n == 0 {
            chosen.push(0);
        } else {
            let c = random_index(rng, n);
            chosen.push(c);
        }
        g += 1;
    }
    (fails, chosen)
}

/// Builds the tick index of a clip's events.
pub fn build_events_by_tick(clip: &CompiledClip) -> (r: BTreeMap<u64, Vec<usize>>)
    ensures
        indexes(r@, clip.events@),
{
    let mut index: BTreeMap<u64, Vec<usize>> = BTreeMap::new();
    let n = clip.events.len();
    let mut i: usize = 0;
    while i < n
        invariant
            n == clip.events@.len(),
            i <= n,
            forall|t: u64|
                #![trigger index@.contains_key(t)]
                #![trigger tick_indices_upto(clip.events@, t, i as int)]
                (index@.contains_key(t) <==> tick_indices_upto(clip.events@, t, i as int).len() > 0) && (
                index@.contains_key(t) ==> index@[t]@ == tick_indices_upto(clip.events@, t, i as int)),
        decreases n - i,
    {
        let t = clip.events[i].tick;
        let ghost pre = index@;
        match index.remove(&t) {
            Some(v) => {
                let mut v = v;
                v.push(i);
                index.insert(t, v);
            },
            None => {
                let mut v: Vec<usize> = Vec::new();
                v.push(i);
                index.insert(t, v);
            },
        }
        proof {
            assert forall|u: u64|
                #![trigger index@.contains_key(u)]
                #![trigger tick_indices_upto(clip.events@, u, i + 1)]
                (index@.contains_key(u) <==> tick_indices_upto(clip.events@, u, i + 1).len() > 0) && (
                index@.contains_key(u) ==> index@[u]@ == tick_indices_upto(clip.events@, u, i + 1)) by {
                assert(tick_indices_upto(clip.events@, u, i + 1) == if clip.events@[i as int].tick == u {
                    tick_indices_upto(clip.events@, u, i as int).push(i)
                } else {
                    tick_indices_upto(clip.events@, u, i as int)
                });
                if u != t {
                    assert(pre.contains_key(u) == index@.contains_key(u));
                }
            }
        }
        i += 1;
    }
    index
}

impl ClipPlayer {
    /// A player for `clip` at tick 0, with the masks of its first loop
    /// rolled from `rng`.
    pub fn new_with_rng(clip: CompiledClip, looping: bool, rng: &mut StdRng) -> (r: ClipPlayer)
        ensures
            r.wf(),
            r.fresh(clip, looping),
    {
        let events_by_tick = build_events_by_tick(&clip);
        let (fails, chosen) = draw_rolls(&clip, rng);
        let masked_events = masks_from_rolls(&clip, &fails, &chosen);
        ClipPlayer {
            clip,
            pending_clip: None,
            current_tick: 0,
            looping,
            muted: false,
            paused: false,
            masked_events,
            events_by_tick,
        }
    }

    /// A player for `clip` at tick 0, with the masks of its first loop
    /// rolled from a freshly seeded generator.
    pub fn new(clip: CompiledClip, looping: bool) -> (r: ClipPlayer)
        ensures
            r.wf(),
            r.fresh(clip, looping),
    {
        let mut rng = fresh_rng();
        Self::new_with_rng(clip, looping, &mut rng)
    }

    /// The events silenced for the current loop.
    pub fn masked_event_indices(&self) -> (r: &HashSet<usize>)
        ensures
            r@ == self.masked_spec(),
    {
        &self.masked_events
    }

    /// Rolls the probability groups and random choices again: failed drum
    /// groups and the unchosen candidates of each random group are masked.
    pub fn reroll_masks(&mut self, rng: &mut StdRng)
        requires
            old(self).wf(),
        ensures
            final(self).wf(),
            final(self).clip_spec() == old(self).clip_spec(),
            final(self).pending_spec() == old(self).pending_spec(),
            final(self).tick_spec() == old(self).tick_spec(),
            final(self).looping_spec() == old(self).looping_spec(),
            final(self).muted_spec() == old(self).muted_spec(),
            final(self).paused_spec() == old(self).paused_spec(),
            is_reroll_of(final(self).clip_spec(), final(self).masked_spec()),
    {
        let (fails, chosen) = draw_rolls(&self.clip, rng);
        self.masked_events = masks_from_rolls(&self.clip, &fails, &chosen);
    }

    /// Mutes the clip: no events are returned while muted.
    pub fn mute(&mut self)
        ensures
            final(self).muted_spec(),
            final(self).same_but_muted(*old(self)),
            final(self).wf() == old(self).wf(),
    {
        self.muted = true;
    }

    /// Unmutes the clip.
    pub fn unmute(&mut self)
        ensures
            !final(self).muted_spec(),
            final(self).same_but_muted(*old(self)),
            final(self).wf() == old(self).wf(),
    {
        self.muted = false;
    }

    /// Whether the clip is muted.
    pub fn is_muted(&self) -> (r: bool)
        ensures
            r == self.muted_spec(),
    {
        self.muted
    }

    /// Pauses the clip: no events are returned and the tick stands still.
    pub fn pause(&mut self)
        ensures
            final(self).paused_spec(),
            final(self).same_but_paused(*old(self)),
            final(self).wf() == old(self).wf(),
    {
        self.paused = true;
    }

    /// Resumes the clip.
    pub fn resume(&mut self)
        ensures
            !final(self).paused_spec(),
            final(self).same_but_paused(*old(self)),
            final(self).wf() == old(self).wf(),
    {
        self.paused = false;
    }

    /// Whether the clip is paused.
    pub fn is_paused(&self) -> (r: bool)
        ensures
            r == self.paused_spec(),
    {
        self.paused
    }

    /// The position within the loop that `tick` plays.
    fn effective_tick(&self, tick: u64) -> (r: u64)
        ensures
            r == self.effective_spec(tick),
    {
        if self.clip.total_ticks == 0 {
            return 0;
        }
        tick % self.clip.total_ticks
    }

    /// The events played at `tick`, in clip order: see `visible_at`.
    pub fn events_at(&self, tick: u64) -> (r: Vec<&MidiEvent>)
        requires
            self.wf(),
        ensures
            r@.len() == self.visible_at(tick).len(),
            forall|k: int|
                0 <= k < r@.len() ==> *#[trigger] r@[k] == self.clip_spec().events@[self.visible_at(tick)[k] as int],
    {
        let mut out: Vec<&MidiEvent> = Vec::new();
        if self.muted || self.paused {
            return out;
        }
        if !self.looping && tick >= self.clip.total_ticks {
            return out;
        }
        let eff = self.effective_tick(tick);
        let _n = self.clip.events.len();
        let ghost all = tick_indices(self.clip.events@, eff);
        let ghost masked = self.masked_events@;
        proof {
            lemma_tick_indices_bounds(self.clip.events@, eff, self.clip.events@.len() as int);
            reveal(Seq::filter);
        }
        match self.events_by_tick.get(&eff) {
            Some(indices) => {
                assert(indices@ == all);
                let mut k: usize = 0;
                while k < indices.len()
                    invariant
                        indices@ == all,
                        masked == self.masked_events@,
                        k <= all.len(),
                        forall|j: int| 0 <= j < all.len() ==> (#[trigger] all[j]) < self.clip.events@.len(),
                        out@.len() == unmasked(all.take(k as int), masked).len(),
                        forall|j: int|
                            0 <= j < out@.len() ==> *#[trigger] out@[j] == self.clip.events@[unmasked(all.take(k as int), masked)[j] as int],
                    decreases all.len() - k,
                {
                    let idx = indices[k];
                    proof {
                        reveal(Seq::filter);
                        assert(all.take(k + 1).drop_last() =~= all.take(k as int));
                        assert(all.take(k + 1).last() == idx);
                    }
                    if !self.masked_events.contains(&idx) {
                        out.push(&self.clip.events[idx]);
                    }
                    k += 1;
                }
                assert(all.take(all.len() as int) =~= all);
                out
            },
            None => {
                assert(all.len() == 0);
                assert(unmasked(all, masked) =~= Seq::<usize>::empty());
                out
            },
        }
    }

    /// The current tick.
    pub fn current_tick(&self) -> (r: u64)
        ensures
            r == self.tick_spec(),
    {
        self.current_tick
    }

    /// Advances by `ticks`: see `advanced`.
    pub fn advance(&mut self, ticks: u64)
        requires
            old(self).wf(),
            old(self).can_advance(ticks),
        ensures
            final(self).wf(),
            Self::advanced(*old(self), *final(self), ticks),
    {
        if self.paused {
            return;
        }
        let old_tick = self.current_tick;
        self.current_tick = self.current_tick + ticks;
        if self.looping && self.clip.total_ticks > 0 {
            let old_loop = old_tick / self.clip.total_ticks;
            let new_loop = self.current_tick / self.clip.total_ticks;
            if new_loop > old_loop {
                let pending = self.pending_clip.take();
                match pending {
                    Some(p) => {
                        self.events_by_tick = build_events_by_tick(&p);
                        self.clip = p;
                        self.current_tick = self.current_tick % self.clip.total_ticks;
                    },
                    None => {},
                }
                let mut rng = fresh_rng();
                self.reroll_masks(&mut rng);
            }
        }
    }

    /// Whether the player can advance by `ticks`: see `can_advance`.
    pub fn can_advance_by(&self, ticks: u64) -> (r: bool)
        ensures
            r == self.can_advance(ticks),
    {
        if ticks > u64::MAX - self.current_tick {
            return false;
        }
        if self.paused {
            return true;
        }
        let total = self.clip.total_ticks;
        let crosses = self.looping && total > 0 && (self.current_tick + ticks) / total > self.current_tick / total;
        if !crosses {
            return true;
        }
        match &self.pending_clip {
            Some(p) => p.total_ticks > 0,
            None => true,
        }
    }

    /// Sets the clip that replaces the current one at the next loop
    /// boundary (replacing any clip already waiting).
    pub fn replace_clip(&mut self, clip: CompiledClip)
        ensures
            final(self).pending_spec() == Some(clip),
            final(self).clip_spec() == old(self).clip_spec(),
            final(self).tick_spec() == old(self).tick_spec(),
            final(self).looping_spec() == old(self).looping_spec(),
            final(self).muted_spec() == old(self).muted_spec(),
            final(self).paused_spec() == old(self).paused_spec(),
            final(self).masked_spec() == old(self).masked_spec(),
            final(self).wf() == old(self).wf(),
    {
        self.pending_clip = Some(clip);
    }

    /// Swaps the waiting clip in at once, to play from its head: see
    /// `committed`. Without a waiting clip nothing changes.
    pub fn commit_pending(&mut self)
        requires
            old(self).wf(),
        ensures
            final(self).wf(),
            Self::committed(*old(self), *final(self)),
    {
        let pending = self.pending_clip.take();
        match pending {
            Some(p) => {
                self.events_by_tick = build_events_by_tick(&p);
                self.clip = p;
                self.current_tick = 0;
                let mut rng = fresh_rng();
                self.reroll_masks(&mut rng);
            },
            None => {},
        }
    }

    /// Whether a clip is waiting to be swapped in.
    pub fn has_pending(&self) -> (r: bool)
        ensures
            r == self.pending_spec() is Some,
    {
        self.pending_clip.is_some()
    }

    /// Whether a clip that does not loop has played to its end; a looping
    /// clip is never done.
    pub fn is_done(&self) -> (r: bool)
        ensures
            r == (!self.looping_spec() && self.tick_spec() >= self.clip_spec().total_ticks),
    {
        if self.looping {
            false
        } else {
            self.current_tick >= self.clip.total_ticks
        }
    }

    /// Back to tick 0.
    pub fn reset(&mut self)
        ensures
            final(self).tick_spec() == 0,
            final(self).clip_spec() == old(self).clip_spec(),
            final(self).pending_spec() == old(self).pending_spec(),
            final(self).looping_spec() == old(self).looping_spec(),
            final(self).muted_spec() == old(self).muted_spec(),
            final(self).paused_spec() == old(self).paused_spec(),
            final(self).masked_spec() == old(self).masked_spec(),
            final(self).wf() == old(self).wf(),
    {
        self.current_tick = 0;
    }

    /// Length of the current clip in ticks.
    pub fn total_ticks(&self) -> (r: u64)
        ensures
            r == self.clip_spec().total_ticks,
    {
        self.clip.total_ticks
    }
}

/// The events a player returns at `tick`.
pub open spec fn player_events(p: ClipPlayer, tick: u64) -> Seq<MidiEvent> {
    Seq::new(p.visible_at(tick).len(), |k: int| p.clip_spec().events@[p.visible_at(tick)[k] as int])
}

/// `s1` is `s0` with every player advanced by `ticks`: see
/// `ClipPlayer::advanced`.
pub open spec fn scene_advanced(s0: ScenePlayer, s1: ScenePlayer, ticks: u64) -> bool {
    &&& s1.players_spec().len() == s0.players_spec().len()
    &&& forall|i: int|
        0 <= i < s0.players_spec().len() ==> (#[trigger] s1.players_spec()[i]).0 == s0.players_spec()[i].0 && ClipPlayer::advanced(
            s0.players_spec()[i].1,
            s1.players_spec()[i].1,
            ticks,
        )
}

/// Events as (device, message) pairs, in order.
pub open spec fn routed(events: Seq<MidiEvent>) -> Seq<(String, MidiMessage)> {
    events.map_values(|e: MidiEvent| (e.device, e.message))
}

/// `i` is the first entry named `name`.
pub open spec fn first_named(ps: Seq<(String, ClipPlayer)>, name: Seq<char>, i: int) -> bool {
    &&& 0 <= i < ps.len()
    &&& ps[i].0@ == name
    &&& forall|j: int| 0 <= j < i ==> (#[trigger] ps[j]).0@ != name
}

/// Some entry is named `name`.
pub open spec fn has_name(ps: Seq<(String, ClipPlayer)>, name: Seq<char>) -> bool {
    exists|i: int| 0 <= i < ps.len() && (#[trigger] ps[i]).0@ == name
}

/// Only entry `i`'s player may differ.
pub open spec fn only_player_changed(old: Seq<(String, ClipPlayer)>, new: Seq<(String, ClipPlayer)>, i: int) -> bool {
    &&& new.len() == old.len()
    &&& new[i].0 == old[i].0
    &&& forall|j: int| 0 <= j < old.len() && j != i ==> #[trigger] new[j] == old[j]
}

/// The events of the first `n` players at `tick`, player after player.
pub open spec fn scene_events(ps: Seq<(String, ClipPlayer)>, tick: u64, n: int) -> Seq<MidiEvent>
    decreases n,
{
    if n <= 0 {
        Seq::empty()
    } else {
        scene_events(ps, tick, n - 1) + player_events(ps[n - 1].1, tick)
    }
}

/// The lcm of the loop lengths of the first `n` players.
pub open spec fn totals_lcm(ps: Seq<(String, ClipPlayer)>, n: int) -> nat
    decreases n,
{
    if n <= 0 {
        1
    } else {
        lcm_spec(totals_lcm(ps, n - 1), ps[n - 1].1.clip_spec().total_ticks as nat)
    }
}

/// The length of one scene loop: the lcm of all loop lengths, or 0 for an
/// empty scene or one holding an empty clip.
pub open spec fn scene_length(ps: Seq<(String, ClipPlayer)>) -> nat {
    if ps.len() == 0 || exists|i: int| 0 <= i < ps.len() && (#[trigger] ps[i]).1.clip_spec().total_ticks == 0 {
        0
    } else {
        totals_lcm(ps, ps.len() as int)
    }
}

/// The events of the first `n` players' clips, player after player.
pub open spec fn all_events(ps: Seq<(String, ClipPlayer)>, n: int) -> Seq<MidiEvent>
    decreases n,
{
    if n <= 0 {
        Seq::empty()
    } else {
        all_events(ps, n - 1) + ps[n - 1].1.clip_spec().events@
    }
}

/// The (device, channel) pair an event is sent to.
pub open spec fn pair_of(e: MidiEvent) -> (Seq<char>, MidiChannel) {
    (e.device@, e.message.channel_spec())
}

/// The distinct (device, channel) pairs of `events`, in order of first use.
pub open spec fn distinct_pairs(events: Seq<MidiEvent>) -> Seq<(Seq<char>, MidiChannel)>
    decreases events.len(),
{
    if events.len() == 0 {
        Seq::empty()
    } else {
        let prev = distinct_pairs(events.drop_last());
        if prev.contains(pair_of(events.last())) {
            prev
        } else {
            prev.push(pair_of(events.last()))
        }
    }
}

/// A list of (device, channel) pairs as values.
pub open spec fn pairs_view(v: Seq<(String, MidiChannel)>) -> Seq<(Seq<char>, MidiChannel)> {
    v.map_values(|p: (String, MidiChannel)| (p.0@, p.1))
}

/// Every event carries a channel.
pub open spec fn all_channel_events(events: Seq<MidiEvent>) -> bool {
    forall|i: int| 0 <= i < events.len() ==> (#[trigger] events[i]).message.has_channel()
}

/// The channel of a channel voice message.
fn channel_of(msg: &MidiMessage) -> (r: MidiChannel)
    requires
        msg.has_channel(),
    ensures
        r == msg.channel_spec(),
{
    match msg {
        MidiMessage::NoteOn { channel, .. } => *channel,
        MidiMessage::NoteOff { channel, .. } => *channel,
        MidiMessage::ControlChange { channel, .. } => *channel,
        MidiMessage::ProgramChange { channel, .. } => *channel,
        _ => vstd::pervasive::unreached(),
    }
}

/// Whether the list holds the pair (`device`, `channel`).
fn contains_pair(pairs: &Vec<(String, MidiChannel)>, device: &String, channel: MidiChannel) -> (r: bool)
    ensures
        r == pairs_view(pairs@).contains((device@, channel)),
{
    let mut i: usize = 0;
    while i < pairs.len()
        invariant
            i <= pairs@.len(),
            forall|j: int| 0 <= j < i ==> pairs_view(pairs@)[j] != (device@, channel),
        decreases pairs@.len() - i,
    {
        if same_text(device, pairs[i].0.as_str()) && pairs[i].1 == channel {
            assert(pairs_view(pairs@)[i as int] == (device@, channel));
            return true;
        }
        i += 1;
    }
    false
}

/// Adds the pairs of `events` not yet listed, in order.
fn collect_pairs(pairs: &mut Vec<(String, MidiChannel)>, events: &Vec<MidiEvent>, Ghost(before): Ghost<Seq<MidiEvent>>)
    requires
        pairs_view(old(pairs)@) == distinct_pairs(before),
        all_channel_events(events@),
    ensures
        pairs_view(final(pairs)@) == distinct_pairs(before + events@),
{
    let mut k: usize = 0;
    assert(before + events@.take(0) =~= before);
    while k < events.len()
        invariant
            k <= events@.len(),
            all_channel_events(events@),
            pairs_view(pairs@) == distinct_pairs(before + events@.take(k as int)),
        decreases events@.len() - k,
    {
        let dev = events[k].device.clone();
        let ch = channel_of(&events[k].message);
        let ghost cur = before + events@.take(k + 1);
        assert(cur.drop_last() =~= before + events@.take(k as int));
        assert(cur.last() == events@[k as int]);
        if !contains_pair(pairs, &dev, ch) {
            pairs.push((dev, ch));
            assert(pairs_view(pairs@) =~= distinct_pairs(before + events@.take(k as int)).push((events@[k as int].device@, ch)));
        }
        k += 1;
    }
    assert(events@.take(events@.len() as int) =~= events@);
}

/// The lcm of a prefix of positive loop lengths is positive and grows with
/// the prefix.
pub proof fn lemma_totals_lcm_mono(ps: Seq<(String, ClipPlayer)>, j: int, n: int)
    requires
        0 <= j <= n <= ps.len(),
        forall|i: int| 0 <= i < n ==> (#[trigger] ps[i]).1.clip_spec().total_ticks > 0,
    ensures
        totals_lcm(ps, j) <= totals_lcm(ps, n),
        totals_lcm(ps, n) > 0,
    decreases n,
{
    if n > 0 {
        lemma_totals_lcm_mono(ps, if j == n { n - 1 } else { j }, n - 1);
        lemma_lcm_multiple(totals_lcm(ps, n - 1), ps[n - 1].1.clip_spec().total_ticks as nat);
    }
}

/// Plays several clips side by side; clips are found by name (the first
/// entry of a name).
pub struct ScenePlayer {
    players: Vec<(String, ClipPlayer)>,
}

impl ScenePlayer {
    /// The named players, in the order they were added.
    pub closed spec fn players_spec(self) -> Seq<(String, ClipPlayer)> {
        self.players@
    }

    /// Every player is well formed.
    pub open spec fn wf(self) -> bool {
        forall|i: int| 0 <= i < self.players_spec().len() ==> (#[trigger] self.players_spec()[i]).1.wf()
    }

    /// The position of the first player named `name`.
    fn find(&self, name: &str) -> (r: Option<usize>)
        ensures
            match r {
                Some(i) => first_named(self.players_spec(), name@, i as int),
                None => !has_name(self.players_spec(), name@),
            },
    {
        let mut i: usize = 0;
        while i < self.players.len()
            invariant
                i <= self.players@.len(),
                forall|j: int| 0 <= j < i ==> (#[trigger] self.players@[j]).0@ != name@,
            decreases self.players@.len() - i,
        {
            if same_text(&self.players[i].0, name) {
                return Some(i);
            }
            i += 1;
        }
        None
    }

    /// An empty scene.
    pub fn new() -> (r: ScenePlayer)
        ensures
            r.wf(),
            r.players_spec().len() == 0,
    {
        ScenePlayer { players: Vec::new() }
    }

    /// Adds a player for `clip` under `name`.
    pub fn add_clip(&mut self, name: String, clip: CompiledClip, looping: bool)
        requires
            old(self).wf(),
        ensures
            final(self).wf(),
            final(self).players_spec().len() == old(self).players_spec().len() + 1,
            final(self).players_spec().drop_last() == old(self).players_spec(),
            final(self).players_spec().last().0 == name,
            final(self).players_spec().last().1.fresh(clip, looping),
    {
        let p = ClipPlayer::new(clip, looping);
        self.players.push((name, p));
        assert(self.players@.drop_last() =~= old(self).players@);
        assert forall|i: int| 0 <= i < self.players_spec().len() implies (#[trigger] self.players_spec()[i]).1.wf() by {
            if i < old(self).players_spec().len() {
                assert(old(self).players_spec()[i] == self.players_spec()[i]);
            }
        }
    }

    /// The events of every player at `tick`, player after player.
    pub fn events_at(&self, tick: u64) -> (r: Vec<&MidiEvent>)
        requires
            self.wf(),
        ensures
            r@.len() == scene_events(self.players_spec(), tick, self.players_spec().len() as int).len(),
            forall|k: int|
                0 <= k < r@.len() ==> *#[trigger] r@[k] == scene_events(
                    self.players_spec(),
                    tick,
                    self.players_spec().len() as int,
                )[k],
    {
        let mut out: Vec<&MidiEvent> = Vec::new();
        let mut i: usize = 0;
        while i < self.players.len()
            invariant
                self.wf(),
                i <= self.players@.len(),
                out@.len() == scene_events(self.players@, tick, i as int).len(),
                forall|k: int| 0 <= k < out@.len() ==> *#[trigger] out@[k] == scene_events(self.players@, tick, i as int)[k],
            decreases self.players@.len() - i,
        {
            assert(self.players_spec()[i as int].1.wf());
            let evs = self.players[i].1.events_at(tick);
            let ghost base = out@.len();
            let mut k: usize = 0;
            while k < evs.len()
                invariant
                    k <= evs@.len(),
                    base == scene_events(self.players@, tick, i as int).len(),
                    out@.len() == base + k,
                    evs@.len() == player_events(self.players@[i as int].1, tick).len(),
                    forall|j: int| 0 <= j < evs@.len() ==> *#[trigger] evs@[j] == player_events(self.players@[i as int].1, tick)[j],
                    forall|j: int| 0 <= j < base ==> *#[trigger] out@[j] == scene_events(self.players@, tick, i as int)[j],
                    forall|j: int| base <= j < out@.len() ==> *#[trigger] out@[j] == player_events(self.players@[i as int].1, tick)[j - base],
                decreases evs@.len() - k,
            {
                out.push(evs[k]);
                k += 1;
            }
            i += 1;
        }
        out
    }

    /// Advances every player by `ticks`.
    pub fn advance_all(&mut self, ticks: u64)
        requires
            old(self).wf(),
            forall|i: int| 0 <= i < old(self).players_spec().len() ==> (#[trigger] old(self).players_spec()[i]).1.can_advance(ticks),
        ensures
            final(self).wf(),
            final(self).players_spec().len() == old(self).players_spec().len(),
            forall|i: int|
                0 <= i < old(self).players_spec().len() ==> (#[trigger] final(self).players_spec()[i]).0 == old(self).players_spec()[i].0
                    && ClipPlayer::advanced(old(self).players_spec()[i].1, final(self).players_spec()[i].1, ticks),
    {
        let n = self.players.len();
        let mut i: usize = 0;
        while i < n
            invariant
                n == self.players@.len(),
                n == old(self).players@.len(),
                i <= n,
                forall|j: int| 0 <= j < n ==> (#[trigger] self.players@[j]).1.wf(),
                forall|j: int| i <= j < n ==> #[trigger] self.players@[j] == old(self).players@[j],
                forall|j: int| 0 <= j < n ==> (#[trigger] old(self).players@[j]).1.can_advance(ticks),
                forall|j: int|
                    0 <= j < i ==> (#[trigger] self.players@[j]).0 == old(self).players@[j].0 && ClipPlayer::advanced(
                        old(self).players@[j].1,
                        self.players@[j].1,
                        ticks,
                    ),
            decreases n - i,
        {
            self.players[i].1.advance(ticks);
            i += 1;
        }
    }

    /// Whether every player can advance by `ticks` (see
    /// `ClipPlayer::can_advance`).
    pub fn can_advance_all(&self, ticks: u64) -> (r: bool)
        ensures
            r == forall|i: int| 0 <= i < self.players_spec().len() ==> (#[trigger] self.players_spec()[i]).1.can_advance(ticks),
    {
        let mut i: usize = 0;
        while i < self.players.len()
            invariant
                i <= self.players@.len(),
                forall|j: int| 0 <= j < i ==> (#[trigger] self.players@[j]).1.can_advance(ticks),
            decreases self.players@.len() - i,
        {
            if !self.players[i].1.can_advance_by(ticks) {
                assert(!self.players_spec()[i as int].1.can_advance(ticks));
                return false;
            }
            i += 1;
        }
        true
    }

    /// Whether every player that does not loop is done.
    pub fn all_done(&self) -> (r: bool)
        ensures
            r == forall|i: int|
                0 <= i < self.players_spec().len() ==> !(#[trigger] self.players_spec()[i]).1.looping_spec()
                    ==> self.players_spec()[i].1.tick_spec() >= self.players_spec()[i].1.clip_spec().total_ticks,
    {
        let mut i: usize = 0;
        while i < self.players.len()
            invariant
                i <= self.players@.len(),
                forall|j: int|
                    0 <= j < i ==> !(#[trigger] self.players@[j]).1.looping_spec() ==> self.players@[j].1.tick_spec()
                        >= self.players@[j].1.clip_spec().total_ticks,
            decreases self.players@.len() - i,
        {
            if !self.players[i].1.looping && !self.players[i].1.is_done() {
                assert(!self.players_spec()[i as int].1.looping_spec());
                return false;
            }
            i += 1;
        }
        true
    }

    /// Puts every player back to tick 0.
    pub fn reset_all(&mut self)
        requires
            old(self).wf(),
        ensures
            final(self).wf(),
            final(self).players_spec().len() == old(self).players_spec().len(),
            forall|i: int|
                0 <= i < old(self).players_spec().len() ==> {
                    let (o, f) = (old(self).players_spec()[i], #[trigger] final(self).players_spec()[i]);
                    &&& f.0 == o.0
                    &&& f.1.tick_spec() == 0
                    &&& f.1.clip_spec() == o.1.clip_spec()
                    &&& f.1.pending_spec() == o.1.pending_spec()
                    &&& f.1.looping_spec() == o.1.looping_spec()
                    &&& f.1.muted_spec() == o.1.muted_spec()
                    &&& f.1.paused_spec() == o.1.paused_spec()
                    &&& f.1.masked_spec() == o.1.masked_spec()
                },
    {
        let n = self.players.len();
        let mut i: usize = 0;
        while i < n
            invariant
                n == self.players@.len(),
                n == old(self).players@.len(),
                i <= n,
                forall|j: int| 0 <= j < n ==> (#[trigger] self.players@[j]).1.wf(),
                forall|j: int| i <= j < n ==> #[trigger] self.players@[j] == old(self).players@[j],
                forall|j: int|
                    0 <= j < i ==> {
                        let (o, f) = (old(self).players@[j], #[trigger] self.players@[j]);
                        &&& f.0 == o.0
                        &&& f.1.tick_spec() == 0
                        &&& f.1.clip_spec() == o.1.clip_spec()
                        &&& f.1.pending_spec() == o.1.pending_spec()
                        &&& f.1.looping_spec() == o.1.looping_spec()
                        &&& f.1.muted_spec() == o.1.muted_spec()
                        &&& f.1.paused_spec() == o.1.paused_spec()
                        &&& f.1.masked_spec() == o.1.masked_spec()
                    },
            decreases n - i,
        {
            self.players[i].1.reset();
            i += 1;
        }
    }

    /// Sets the clip that replaces the first clip named `name` at its next
    /// loop boundary, or at the next commit (`commit_pending_clips`) if
    /// that comes first; nothing happens when no clip has that name.
    pub fn replace_clip(&mut self, name: &str, clip: CompiledClip)
        requires
            old(self).wf(),
        ensures
            final(self).wf(),
            !has_name(old(self).players_spec(), name@) ==> final(self).players_spec() == old(self).players_spec(),
            forall|i: int|
                #[trigger] first_named(old(self).players_spec(), name@, i) ==> {
                    let (o, f) = (old(self).players_spec()[i].1, final(self).players_spec()[i].1);
                    &&& only_player_changed(old(self).players_spec(), final(self).players_spec(), i)
                    &&& f.pending_spec() == Some(clip)
                    &&& f.clip_spec() == o.clip_spec()
                    &&& f.tick_spec() == o.tick_spec()
                    &&& f.looping_spec() == o.looping_spec()
                    &&& f.muted_spec() == o.muted_spec()
                    &&& f.paused_spec() == o.paused_spec()
                    &&& f.masked_spec() == o.masked_spec()
                },
    {
        match self.find(name) {
            Some(i) => {
                self.players[i].1.replace_clip(clip);
                proof {
                    assert forall|j: int| #[trigger] first_named(old(self).players@, name@, j) implies j == i by {
                        if j < i {
                            assert(old(self).players@[j].0@ != name@);
                        } else if j > i {
                            assert(old(self).players@[i as int].0@ != name@);
                        }
                    }
                }
            },
            None => {},
        }
    }

    /// Swaps in every waiting clip at once (the driver does this on each
    /// grid head): see `scene_committed`.
    pub fn commit_pending_clips(&mut self)
        requires
            old(self).wf(),
        ensures
            final(self).wf(),
            scene_committed(*old(self), *final(self)),
    {
        assert forall|j: int| 0 <= j < self.players@.len() implies (#[trigger] self.players@[j]).1.wf() by {
            assert(self.players_spec()[j].1.wf());
        }
        let n = self.players.len();
        let mut i: usize = 0;
        while i < n
            invariant
                n == self.players@.len(),
                n == old(self).players@.len(),
                i <= n,
                forall|j: int| 0 <= j < n ==> (#[trigger] self.players@[j]).1.wf(),
                forall|j: int| i <= j < n ==> #[trigger] self.players@[j] == old(self).players@[j],
                forall|j: int|
                    0 <= j < i ==> (#[trigger] self.players@[j]).0 == old(self).players@[j].0 && ClipPlayer::committed(
                        old(self).players@[j].1,
                        self.players@[j].1,
                    ),
            decreases n - i,
        {
            self.players[i].1.commit_pending();
            i += 1;
        }
    }

    /// Number of clips.
    pub fn clip_count(&self) -> (r: usize)
        ensures
            r == self.players_spec().len(),
    {
        self.players.len()
    }

    /// Length of one scene loop in ticks: the lcm of every clip's length;
    /// 0 for an empty scene or one holding a clip of length 0.
    pub fn scene_tick_length(&self) -> (r: u64)
        requires
            scene_length(self.players_spec()) <= u64::MAX,
        ensures
            r == scene_length(self.players_spec()),
    {
        if self.players.len() == 0 {
            return 0;
        }
        let n = self.players.len();
        let mut i: usize = 0;
        while i < n
            invariant
                n == self.players@.len(),
                i <= n,
                forall|j: int| 0 <= j < i ==> (#[trigger] self.players@[j]).1.clip_spec().total_ticks > 0,
            decreases n - i,
        {
            if self.players[i].1.total_ticks() == 0 {
                return 0;
            }
            i += 1;
        }

        let mut acc: u64 = 1;
        let mut i: usize = 0;
        while i < n
            invariant
                n == self.players@.len(),
                n > 0,
                i <= n,
                forall|j: int| 0 <= j < n ==> (#[trigger] self.players@[j]).1.clip_spec().total_ticks > 0,
                scene_length(self.players@) <= u64::MAX,
                scene_length(self.players@) == totals_lcm(self.players@, n as int),
                acc == totals_lcm(self.players@, i as int),
            decreases n - i,
        {
            proof {
                lemma_totals_lcm_mono(self.players@, i + 1, n as int);
                assert(scene_length(self.players@) == totals_lcm(self.players@, n as int));
            }
            acc = lcm(acc, self.players[i].1.total_ticks());
            i += 1;
        }
        acc
    }

    /// The length of one scene loop (see `scene_tick_length`), or `None`
    /// when it does not fit in a `u64`.
    pub fn checked_scene_tick_length(&self) -> (r: Option<u64>)
        ensures
            r == if scene_length(self.players_spec()) <= u64::MAX {
                Some(scene_length(self.players_spec()) as u64)
            } else {
                None
            },
    {
        let n = self.players.len();
        let mut i: usize = 0;
        while i < n
            invariant
                n == self.players@.len(),
                i <= n,
                forall|j: int| 0 <= j < i ==> (#[trigger] self.players@[j]).1.clip_spec().total_ticks > 0,
            decreases n - i,
        {
            if self.players[i].1.total_ticks() == 0 {
                return Some(0);
            }
            i += 1;
        }
        if n == 0 {
            return Some(0);
        }
        let mut acc: u64 = 1;
        let mut i: usize = 0;
        while i < n
            invariant
                n == self.players@.len(),
                n > 0,
                i <= n,
                forall|j: int| 0 <= j < n ==> (#[trigger] self.players@[j]).1.clip_spec().total_ticks > 0,
                scene_length(self.players@) == totals_lcm(self.players@, n as int),
                acc == totals_lcm(self.players@, i as int),
            decreases n - i,
        {
            let t = self.players[i].1.total_ticks();
            let g = gcd(acc, t);
            proof {
                lemma_totals_lcm_mono(self.players@, i as int, n as int);
                lemma_gcd_divides(acc as nat, t as nat);
                vstd::arithmetic::div_mod::lemma_fundamental_div_mod(acc as int, g as int);
            }
            let q = acc / g;
            proof {
                lemma_totals_lcm_mono(self.players@, i as int, i as int);
                assert(totals_lcm(self.players@, i + 1) == lcm_spec(acc as nat, t as nat));
                assert(lcm_spec(acc as nat, t as nat) == q * t);
            }
            match q.checked_mul(t) {
                Some(x) => {
                    acc = x;
                },
                None => {
                    proof {
                        lemma_totals_lcm_mono(self.players@, i + 1, n as int);
                    }
                    return None;
                },
            }
            i += 1;
        }
        Some(acc)
    }

    /// Mutes the first clip named `name`; nothing happens when none has it.
    pub fn mute_clip(&mut self, name: &str)
        requires
            old(self).wf(),
        ensures
            final(self).wf(),
            !has_name(old(self).players_spec(), name@) ==> final(self).players_spec() == old(self).players_spec(),
            forall|i: int|
                #[trigger] first_named(old(self).players_spec(), name@, i) ==> {
                    &&& only_player_changed(old(self).players_spec(), final(self).players_spec(), i)
                    &&& final(self).players_spec()[i].1.muted_spec()
                    &&& final(self).players_spec()[i].1.same_but_muted(old(self).players_spec()[i].1)
                },
    {
        match self.find(name) {
            Some(i) => {
                self.players[i].1.mute();
                proof {
                    assert forall|j: int| #[trigger] first_named(old(self).players@, name@, j) implies j == i by {
                        if j < i {
                            assert(old(self).players@[j].0@ != name@);
                        } else if j > i {
                            assert(old(self).players@[i as int].0@ != name@);
                        }
                    }
                    assert forall|j: int| 0 <= j < self.players_spec().len() implies (#[trigger] self.players_spec()[j]).1.wf() by {
                        if j != i {
                            assert(old(self).players_spec()[j] == self.players_spec()[j]);
                        }
                    }
                }
            },
            None => {},
        }
    }

    /// Unmutes the first clip named `name`; nothing happens when none has it.
    pub fn unmute_clip(&mut self, name: &str)
        requires
            old(self).wf(),
        ensures
            final(self).wf(),
            !has_name(old(self).players_spec(), name@) ==> final(self).players_spec() == old(self).players_spec(),
            forall|i: int|
                #[trigger] first_named(old(self).players_spec(), name@, i) ==> {
                    &&& only_player_changed(old(self).players_spec(), final(self).players_spec(), i)
                    &&& !final(self).players_spec()[i].1.muted_spec()
                    &&& final(self).players_spec()[i].1.same_but_muted(old(self).players_spec()[i].1)
                },
    {
        match self.find(name) {
            Some(i) => {
                self.players[i].1.unmute();
                proof {
                    assert forall|j: int| #[trigger] first_named(old(self).players@, name@, j) implies j == i by {
                        if j < i {
                            assert(old(self).players@[j].0@ != name@);
                        } else if j > i {
                            assert(old(self).players@[i as int].0@ != name@);
                        }
                    }
                    assert forall|j: int| 0 <= j < self.players_spec().len() implies (#[trigger] self.players_spec()[j]).1.wf() by {
                        if j != i {
                            assert(old(self).players_spec()[j] == self.players_spec()[j]);
                        }
                    }
                }
            },
            None => {},
        }
    }

    /// Whether the first clip named `name` is muted (`false` when none has it).
    pub fn is_muted(&self, name: &str) -> (r: bool)
        ensures
            !has_name(self.players_spec(), name@) ==> !r,
            forall|i: int| #[trigger] first_named(self.players_spec(), name@, i) ==> r == self.players_spec()[i].1.muted_spec(),
    {
        match self.find(name) {
            Some(i) => {
                proof {
                    assert forall|j: int| #[trigger] first_named(self.players@, name@, j) implies j == i by {
                        if j < i {
                            assert(self.players@[j].0@ != name@);
                        } else if j > i {
                            assert(self.players@[i as int].0@ != name@);
                        }
                    }
                }
                self.players[i].1.is_muted()
            },
            None => false,
        }
    }

    /// Unmutes every clip.
    pub fn unmute_all(&mut self)
        requires
            old(self).wf(),
        ensures
            final(self).wf(),
            final(self).players_spec().len() == old(self).players_spec().len(),
            forall|i: int|
                0 <= i < old(self).players_spec().len() ==> {
                    &&& (#[trigger] final(self).players_spec()[i]).0 == old(self).players_spec()[i].0
                    &&& !final(self).players_spec()[i].1.muted_spec()
                    &&& final(self).players_spec()[i].1.same_but_muted(old(self).players_spec()[i].1)
                },
    {
        let n = self.players.len();
        let mut i: usize = 0;
        while i < n
            invariant
                n == self.players@.len(),
                n == old(self).players@.len(),
                i <= n,
                forall|j: int| 0 <= j < n ==> (#[trigger] old(self).players@[j]).1.wf(),
                forall|j: int| 0 <= j < n ==> (#[trigger] self.players@[j]).1.wf(),
                forall|j: int| i <= j < n ==> #[trigger] self.players@[j] == old(self).players@[j],
                forall|j: int|
                    0 <= j < i ==> {
                        &&& (#[trigger] self.players@[j]).0 == old(self).players@[j].0
                        &&& !self.players@[j].1.muted_spec()
                        &&& self.players@[j].1.same_but_muted(old(self).players@[j].1)
                    },
            decreases n - i,
        {
            self.players[i].1.unmute();
            i += 1;
        }
        assert forall|j: int| 0 <= j < self.players_spec().len() implies (#[trigger] self.players_spec()[j]).1.wf() by {
            assert(self.players@[j].1.wf());
        }
    }

    /// Pauses the first clip named `name`; nothing happens when none has it.
    pub fn pause_clip(&mut self, name: &str)
        requires
            old(self).wf(),
        ensures
            final(self).wf(),
            !has_name(old(self).players_spec(), name@) ==> final(self).players_spec() == old(self).players_spec(),
            forall|i: int|
                #[trigger] first_named(old(self).players_spec(), name@, i) ==> {
                    &&& only_player_changed(old(self).players_spec(), final(self).players_spec(), i)
                    &&& final(self).players_spec()[i].1.paused_spec()
                    &&& final(self).players_spec()[i].1.same_but_paused(old(self).players_spec()[i].1)
                },
    {
        match self.find(name) {
            Some(i) => {
                self.players[i].1.pause();
                proof {
                    assert forall|j: int| #[trigger] first_named(old(self).players@, name@, j) implies j == i by {
                        if j < i {
                            assert(old(self).players@[j].0@ != name@);
                        } else if j > i {
                            assert(old(self).players@[i as int].0@ != name@);
                        }
                    }
                    assert forall|j: int| 0 <= j < self.players_spec().len() implies (#[trigger] self.players_spec()[j]).1.wf() by {
                        if j != i {
                            assert(old(self).players_spec()[j] == self.players_spec()[j]);
                        }
                    }
                }
            },
            None => {},
        }
    }

    /// Resumes the first clip named `name`; nothing happens when none has it.
    pub fn resume_clip(&mut self, name: &str)
        requires
            old(self).wf(),
        ensures
            final(self).wf(),
            !has_name(old(self).players_spec(), name@) ==> final(self).players_spec() == old(self).players_spec(),
            forall|i: int|
                #[trigger] first_named(old(self).players_spec(), name@, i) ==> {
                    &&& only_player_changed(old(self).players_spec(), final(self).players_spec(), i)
                    &&& !final(self).players_spec()[i].1.paused_spec()
                    &&& final(self).players_spec()[i].1.same_but_paused(old(self).players_spec()[i].1)
                },
    {
        match self.find(name) {
            Some(i) => {
                self.players[i].1.resume();
                proof {
                    assert forall|j: int| #[trigger] first_named(old(self).players@, name@, j) implies j == i by {
                        if j < i {
                            assert(old(self).players@[j].0@ != name@);
                        } else if j > i {
                            assert(old(self).players@[i as int].0@ != name@);
                        }
                    }
                    assert forall|j: int| 0 <= j < self.players_spec().len() implies (#[trigger] self.players_spec()[j]).1.wf() by {
                        if j != i {
                            assert(old(self).players_spec()[j] == self.players_spec()[j]);
                        }
                    }
                }
            },
            None => {},
        }
    }

    /// Whether the first clip named `name` is paused (`false` when none has it).
    pub fn is_clip_paused(&self, name: &str) -> (r: bool)
        ensures
            !has_name(self.players_spec(), name@) ==> !r,
            forall|i: int| #[trigger] first_named(self.players_spec(), name@, i) ==> r == self.players_spec()[i].1.paused_spec(),
    {
        match self.find(name) {
            Some(i) => {
                proof {
                    assert forall|j: int| #[trigger] first_named(self.players@, name@, j) implies j == i by {
                        if j < i {
                            assert(self.players@[j].0@ != name@);
                        } else if j > i {
                            assert(self.players@[i as int].0@ != name@);
                        }
                    }
                }
                self.players[i].1.is_paused()
            },
            None => false,
        }
    }

    /// Pauses every clip.
    pub fn pause_all_clips(&mut self)
        requires
            old(self).wf(),
        ensures
            final(self).wf(),
            final(self).players_spec().len() == old(self).players_spec().len(),
            forall|i: int|
                0 <= i < old(self).players_spec().len() ==> {
                    &&& (#[trigger] final(self).players_spec()[i]).0 == old(self).players_spec()[i].0
                    &&& final(self).players_spec()[i].1.paused_spec()
                    &&& final(self).players_spec()[i].1.same_but_paused(old(self).players_spec()[i].1)
                },
    {
        let n = self.players.len();
        let mut i: usize = 0;
        while i < n
            invariant
                n == self.players@.len(),
                n == old(self).players@.len(),
                i <= n,
                forall|j: int| 0 <= j < n ==> (#[trigger] old(self).players@[j]).1.wf(),
                forall|j: int| 0 <= j < n ==> (#[trigger] self.players@[j]).1.wf(),
                forall|j: int| i <= j < n ==> #[trigger] self.players@[j] == old(self).players@[j],
                forall|j: int|
                    0 <= j < i ==> {
                        &&& (#[trigger] self.players@[j]).0 == old(self).players@[j].0
                        &&& self.players@[j].1.paused_spec()
                        &&& self.players@[j].1.same_but_paused(old(self).players@[j].1)
                    },
            decreases n - i,
        {
            self.players[i].1.pause();
            i += 1;
        }
        assert forall|j: int| 0 <= j < self.players_spec().len() implies (#[trigger] self.players_spec()[j]).1.wf() by {
            assert(self.players@[j].1.wf());
        }
    }

    /// Resumes every clip.
    pub fn resume_all_clips(&mut self)
        requires
            old(self).wf(),
        ensures
            final(self).wf(),
            final(self).players_spec().len() == old(self).players_spec().len(),
            forall|i: int|
                0 <= i < old(self).players_spec().len() ==> {
                    &&& (#[trigger] final(self).players_spec()[i]).0 == old(self).players_spec()[i].0
                    &&& !final(self).players_spec()[i].1.paused_spec()
                    &&& final(self).players_spec()[i].1.same_but_paused(old(self).players_spec()[i].1)
                },
    {
        let n = self.players.len();
        let mut i: usize = 0;
        while i < n
            invariant
                n == self.players@.len(),
                n == old(self).players@.len(),
                i <= n,
                forall|j: int| 0 <= j < n ==> (#[trigger] old(self).players@[j]).1.wf(),
                forall|j: int| 0 <= j < n ==> (#[trigger] self.players@[j]).1.wf(),
                forall|j: int| i <= j < n ==> #[trigger] self.players@[j] == old(self).players@[j],
                forall|j: int|
                    0 <= j < i ==> {
                        &&& (#[trigger] self.players@[j]).0 == old(self).players@[j].0
                        &&& !self.players@[j].1.paused_spec()
                        &&& self.players@[j].1.same_but_paused(old(self).players@[j].1)
                    },
            decreases n - i,
        {
            self.players[i].1.resume();
            i += 1;
        }
        assert forall|j: int| 0 <= j < self.players_spec().len() implies (#[trigger] self.players_spec()[j]).1.wf() by {
            assert(self.players@[j].1.wf());
        }
    }

    /// The distinct (device, channel) pairs used by the events of every
    /// clip, mute and pause aside, in order of first use.
    pub fn channels_in_use(&self) -> (r: Vec<(String, MidiChannel)>)
        requires
            forall|i: int| 0 <= i < self.players_spec().len() ==> all_channel_events((#[trigger] self.players_spec()[i]).1.clip_spec().events@),
        ensures
            pairs_view(r@) == distinct_pairs(all_events(self.players_spec(), self.players_spec().len() as int)),
    {
        let mut pairs: Vec<(String, MidiChannel)> = Vec::new();
        let n = self.players.len();
        let mut i: usize = 0;
        assert(pairs_view(pairs@) =~= distinct_pairs(all_events(self.players@, 0)));
        while i < n
            invariant
                n == self.players@.len(),
                i <= n,
                forall|j: int| 0 <= j < n ==> all_channel_events((#[trigger] self.players_spec()[j]).1.clip_spec().events@),
                pairs_view(pairs@) == distinct_pairs(all_events(self.players@, i as int)),
            decreases n - i,
        {
            assert(all_channel_events(self.players_spec()[i as int].1.clip_spec().events@));
            collect_pairs(&mut pairs, &self.players[i].1.clip.events, Ghost(all_events(self.players@, i as int)));
            i += 1;
        }
        pairs
    }

    /// The distinct (device, channel) pairs used by the first clip named
    /// `name`, in order of first use; empty when no clip has the name.
    pub fn channels_of_clip(&self, name: &str) -> (r: Vec<(String, MidiChannel)>)
        requires
            forall|i: int| 0 <= i < self.players_spec().len() ==> all_channel_events((#[trigger] self.players_spec()[i]).1.clip_spec().events@),
        ensures
            !has_name(self.players_spec(), name@) ==> r@.len() == 0,
            forall|i: int|
                #[trigger] first_named(self.players_spec(), name@, i) ==> pairs_view(r@) == distinct_pairs(
                    self.players_spec()[i].1.clip_spec().events@,
                ),
    {
        let mut pairs: Vec<(String, MidiChannel)> = Vec::new();
        match self.find(name) {
            Some(i) => {
                proof {
                    assert forall|j: int| #[trigger] first_named(self.players@, name@, j) implies j == i by {
                        if j < i {
                            assert(self.players@[j].0@ != name@);
                        } else if j > i {
                            assert(self.players@[i as int].0@ != name@);
                        }
                    }
                    assert(pairs_view(pairs@) =~= distinct_pairs(Seq::<MidiEvent>::empty()));
                    assert(Seq::<MidiEvent>::empty() + self.players@[i as int].1.clip.events@ =~= self.players@[i as int].1.clip.events@);
                }
                assert(all_channel_events(self.players_spec()[i as int].1.clip_spec().events@));
                collect_pairs(&mut pairs, &self.players[i].1.clip.events, Ghost(Seq::empty()));
            },
            None => {},
        }
        pairs
    }

    /// Whether some clip is named `name`.
    pub fn has_clip(&self, name: &str) -> (r: bool)
        ensures
            r == has_name(self.players_spec(), name@),
    {
        match self.find(name) {
            Some(i) => {
                assert(self.players_spec()[i as int].0@ == name@);
                true
            },
            None => false,
        }
    }
}

impl Default for ScenePlayer {
    fn default() -> (r: ScenePlayer)
        ensures
            r.wf(),
            r.players_spec().len() == 0,
    {
        ScenePlayer::new()
    }
}

} // verus!
