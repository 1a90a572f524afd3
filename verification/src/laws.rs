//! Properties of the library that span several operations: what a
//! registry read gives back after a write, how scopes nest, how players
//! loop, mute and pause, which clips a scene knows, and what the clip compiler's `bars` limit and
//! event order guarantee.

use vstd::prelude::*;

use crate::arith::{divides, lcm_spec, lemma_divides_trans, lemma_lcm_multiple};
use crate::arrange::{candidates_after, drums_after, fate, kept_events, new_index, randoms_after, remap_list};
use crate::ast::{
    Block, ClipDef, DeviceDef, IncludeDef, InstrumentDef, KitDef, MuteCommand, PauseCommand, PlayCommand, ResumeCommand, ScaleDef,
    SceneDef, SessionDef, StopCommand, Tempo, UnmuteCommand, VarDef,
};
use crate::drum::DrumGroupView;
use crate::emit::EventView;
use crate::player::{
    all_events, distinct_pairs, first_named, has_name, only_player_changed, pair_of, pairs_view, scene_length, totals_lcm, ClipPlayer,
    ScenePlayer,
};
use crate::compiler::MidiEvent;
use crate::registry::RegistryModel;
use crate::scope::lookup_scopes;
use crate::sorting::{
    drum_indices_below, indices_below, key_eq, key_lt, lemma_count_mono, lemma_sorted_positions, position_source, precedes,
    random_indices_below, sorted_position, stable_sorted,
};

verus! {

/// After a device is registered, reading its name gives it back; other
/// names and the other tables are unchanged.
pub proof fn law_register_device(reg: RegistryModel, d: DeviceDef, other: Seq<char>)
    ensures
        ({
            let after = reg.register(Block::Device(d));
            &&& after.devices.contains_key(d.name@)
            &&& after.devices[d.name@] == d
            &&& other != d.name@ ==> (after.devices.contains_key(other) == reg.devices.contains_key(other) && after.devices[other]
                == reg.devices[other])
            &&& after.instruments == reg.instruments && after.kits == reg.kits && after.clips == reg.clips
            &&& after.scenes == reg.scenes && after.sessions == reg.sessions && after.variables == reg.variables
            &&& after.tempo == reg.tempo && after.scale == reg.scale
        }),
{
}

/// After an instrument is registered, reading its name gives it back;
/// other names and the other tables are unchanged.
pub proof fn law_register_instrument(reg: RegistryModel, i: InstrumentDef, other: Seq<char>)
    ensures
        ({
            let after = reg.register(Block::Instrument(i));
            &&& after.instruments.contains_key(i.name@)
            &&& after.instruments[i.name@] == i
            &&& other != i.name@ ==> (after.instruments.contains_key(other) == reg.instruments.contains_key(other)
                && after.instruments[other] == reg.instruments[other])
            &&& after.devices == reg.devices && after.kits == reg.kits && after.clips == reg.clips
            &&& after.scenes == reg.scenes && after.sessions == reg.sessions && after.variables == reg.variables
            &&& after.tempo == reg.tempo && after.scale == reg.scale
        }),
{
}

/// After a kit is registered, reading its name gives it back; other names
/// and the other tables are unchanged.
pub proof fn law_register_kit(reg: RegistryModel, k: KitDef, other: Seq<char>)
    ensures
        ({
            let after = reg.register(Block::Kit(k));
            &&& after.kits.contains_key(k.name@)
            &&& after.kits[k.name@] == k
            &&& other != k.name@ ==> (after.kits.contains_key(other) == reg.kits.contains_key(other) && after.kits[other]
                == reg.kits[other])
            &&& after.devices == reg.devices && after.instruments == reg.instruments && after.clips == reg.clips
            &&& after.scenes == reg.scenes && after.sessions == reg.sessions && after.variables == reg.variables
            &&& after.tempo == reg.tempo && after.scale == reg.scale
        }),
{
}

/// After a clip is registered, reading its name gives it back; other
/// names and the other tables are unchanged.
pub proof fn law_register_clip(reg: RegistryModel, c: ClipDef, other: Seq<char>)
    ensures
        ({
            let after = reg.register(Block::Clip(c));
            &&& after.clips.contains_key(c.name@)
            &&& after.clips[c.name@] == c
            &&& other != c.name@ ==> (after.clips.contains_key(other) == reg.clips.contains_key(other) && after.clips[other]
                == reg.clips[other])
            &&& after.devices == reg.devices && after.instruments == reg.instruments && after.kits == reg.kits
            &&& after.scenes == reg.scenes && after.sessions == reg.sessions && after.variables == reg.variables
            &&& after.tempo == reg.tempo && after.scale == reg.scale
        }),
{
}

/// After a scene is registered, reading its name gives it back; other
/// names and the other tables are unchanged.
pub proof fn law_register_scene(reg: RegistryModel, s: SceneDef, other: Seq<char>)
    ensures
        ({
            let after = reg.register(Block::Scene(s));
            &&& after.scenes.contains_key(s.name@)
            &&& after.scenes[s.name@] == s
            &&& other != s.name@ ==> (after.scenes.contains_key(other) == reg.scenes.contains_key(other) && after.scenes[other]
                == reg.scenes[other])
            &&& after.devices == reg.devices && after.instruments == reg.instruments && after.kits == reg.kits
            &&& after.clips == reg.clips && after.sessions == reg.sessions && after.variables == reg.variables
            &&& after.tempo == reg.tempo && after.scale == reg.scale
        }),
{
}

/// After a session is registered, reading its name gives it back; other
/// names and the other tables are unchanged.
pub proof fn law_register_session(reg: RegistryModel, s: SessionDef, other: Seq<char>)
    ensures
        ({
            let after = reg.register(Block::Session(s));
            &&& after.sessions.contains_key(s.name@)
            &&& after.sessions[s.name@] == s
            &&& other != s.name@ ==> (after.sessions.contains_key(other) == reg.sessions.contains_key(other)
                && after.sessions[other] == reg.sessions[other])
            &&& after.devices == reg.devices && after.instruments == reg.instruments && after.kits == reg.kits
            &&& after.clips == reg.clips && after.scenes == reg.scenes && after.variables == reg.variables
            &&& after.tempo == reg.tempo && after.scale == reg.scale
        }),
{
}

/// After a variable is registered, reading its name gives its value back;
/// other names and the other tables are unchanged.
pub proof fn law_register_var(reg: RegistryModel, v: VarDef, other: Seq<char>)
    ensures
        ({
            let after = reg.register(Block::Var(v));
            &&& after.variables.contains_key(v.name@)
            &&& after.variables[v.name@] == v.value
            &&& other != v.name@ ==> (after.variables.contains_key(other) == reg.variables.contains_key(other)
                && after.variables[other] == reg.variables[other])
            &&& after.devices == reg.devices && after.instruments == reg.instruments && after.kits == reg.kits
            &&& after.clips == reg.clips && after.scenes == reg.scenes && after.sessions == reg.sessions
            &&& after.tempo == reg.tempo && after.scale == reg.scale
        }),
{
}

/// A tempo or scale block replaces the current one and leaves every table
/// unchanged.
pub proof fn law_register_tempo_scale(reg: RegistryModel, t: Tempo, s: ScaleDef)
    ensures
        reg.register(Block::Tempo(t)) == (RegistryModel { tempo: Some(t), ..reg }),
        reg.register(Block::Scale(s)) == (RegistryModel { scale: Some(s), ..reg }),
{
}

/// Playback commands and includes change nothing in the registry.
pub proof fn law_commands_change_nothing(
    reg: RegistryModel,
    play: PlayCommand,
    stop: StopCommand,
    pause: PauseCommand,
    resume: ResumeCommand,
    mute: MuteCommand,
    unmute: UnmuteCommand,
    inc: IncludeDef,
)
    ensures
        reg.register(Block::Play(play)) == reg,
        reg.register(Block::Stop(stop)) == reg,
        reg.register(Block::Pause(pause)) == reg,
        reg.register(Block::Resume(resume)) == reg,
        reg.register(Block::Mute(mute)) == reg,
        reg.register(Block::Unmute(unmute)) == reg,
        reg.register(Block::Include(inc)) == reg,
{
}

/// A variable defined in the innermost scope is what a lookup finds.
pub proof fn law_define_then_lookup(scopes: Seq<Map<Seq<char>, String>>, name: Seq<char>, value: String)
    requires
        scopes.len() >= 1,
    ensures
        lookup_scopes(scopes.update(scopes.len() - 1, scopes.last().insert(name, value)), name) == Some(value@),
{
    let s2 = scopes.update(scopes.len() - 1, scopes.last().insert(name, value));
    assert(s2.last() == scopes.last().insert(name, value));
}

/// Opening an empty scope hides nothing: every lookup finds what it found
/// before; closing it again gives the old chain back.
pub proof fn law_push_scope_transparent(scopes: Seq<Map<Seq<char>, String>>, name: Seq<char>)
    ensures
        lookup_scopes(scopes.push(Map::<Seq<char>, String>::empty()), name) == lookup_scopes(scopes, name),
        scopes.push(Map::<Seq<char>, String>::empty()).drop_last() == scopes,
{
    let s2 = scopes.push(Map::<Seq<char>, String>::empty());
    assert(s2.drop_last() =~= scopes);
}

/// A name defined in an inner scope shadows the same name of outer
/// scopes (the global scope among them).
pub proof fn law_inner_scope_shadows(scopes: Seq<Map<Seq<char>, String>>, name: Seq<char>, value: String)
    requires
        scopes.len() >= 1,
        scopes.last().contains_key(name),
        scopes.last()[name] == value,
    ensures
        lookup_scopes(scopes, name) == Some(value@),
{
}

/// A looping player plays the same events one loop later.
pub proof fn law_loop_periodic(p: ClipPlayer, t: u64)
    requires
        p.looping_spec(),
        p.clip_spec().total_ticks > 0,
        t + p.clip_spec().total_ticks <= u64::MAX,
    ensures
        p.visible_at((t + p.clip_spec().total_ticks) as u64) == p.visible_at(t),
{
    let n = p.clip_spec().total_ticks as int;
    assert(((t as int) + n) % n == (t as int) % n) by (nonlinear_arith)
        requires
            n > 0,
    ;
}

/// Muting silences a player at every tick; unmuting a muted player gives
/// back exactly what it played before the mute.
pub proof fn law_mute_then_unmute(p: ClipPlayer, muted: ClipPlayer, unmuted: ClipPlayer, t: u64)
    requires
        !p.muted_spec(),
        muted.muted_spec(),
        muted.same_but_muted(p),
        !unmuted.muted_spec(),
        unmuted.same_but_muted(muted),
    ensures
        muted.visible_at(t) == Seq::<usize>::empty(),
        unmuted.visible_at(t) == p.visible_at(t),
{
}

/// Pausing silences a player at every tick; resuming a paused player gives
/// back exactly what it played before the pause.
pub proof fn law_pause_then_resume(p: ClipPlayer, paused: ClipPlayer, resumed: ClipPlayer, t: u64)
    requires
        !p.paused_spec(),
        paused.paused_spec(),
        paused.same_but_paused(p),
        !resumed.paused_spec(),
        resumed.same_but_paused(paused),
    ensures
        paused.visible_at(t) == Seq::<usize>::empty(),
        resumed.visible_at(t) == p.visible_at(t),
{
}

/// Every prefix's lcm is divided by each of its loop lengths.
proof fn lemma_totals_lcm_divides(ps: Seq<(String, ClipPlayer)>, i: int, n: int)
    requires
        0 <= i < n <= ps.len(),
        forall|j: int| 0 <= j < n ==> (#[trigger] ps[j]).1.clip_spec().total_ticks > 0,
    ensures
        divides(ps[i].1.clip_spec().total_ticks as nat, totals_lcm(ps, n)),
        totals_lcm(ps, n) > 0,
    decreases n,
{
    let t = ps[n - 1].1.clip_spec().total_ticks as nat;
    if n == 1 {
        lemma_lcm_multiple(1, t);
    } else {
        lemma_totals_lcm_divides(ps, if i < n - 1 { i } else { 0 }, n - 1);
        let prev = totals_lcm(ps, n - 1);
        lemma_lcm_multiple(prev, t);
        if i < n - 1 {
            lemma_divides_trans(ps[i].1.clip_spec().total_ticks as nat, prev, lcm_spec(prev, t));
        }
    }
}

/// The length of a scene loop is a whole number of loops of each of its
/// clips, so all clips start over together at its end.
pub proof fn law_scene_length_common_multiple(ps: Seq<(String, ClipPlayer)>, i: int)
    requires
        0 <= i < ps.len(),
        scene_length(ps) > 0,
    ensures
        divides(ps[i].1.clip_spec().total_ticks as nat, scene_length(ps)),
{
    assert forall|j: int| 0 <= j < ps.len() implies (#[trigger] ps[j]).1.clip_spec().total_ticks > 0 by {
        if ps[j].1.clip_spec().total_ticks == 0 {
            assert(exists|k: int| 0 <= k < ps.len() && (#[trigger] ps[k]).1.clip_spec().total_ticks == 0);
        }
    }
    lemma_totals_lcm_divides(ps, i, ps.len() as int);
}

/// A compiled clip's events are ordered by tick, and at one tick note-ons
/// come before controller and program changes, which come before
/// note-offs.
pub proof fn law_sorted_events_ordered(evs: Seq<EventView>, a: int, b: int)
    requires
        0 <= a < b < evs.len(),
    ensures
        !key_lt(stable_sorted(evs)[b], stable_sorted(evs)[a]),
{
    lemma_sorted_positions(evs);
    let i = position_source(evs, a);
    let j = position_source(evs, b);
    if key_lt(evs[j], evs[i]) {
        assert(precedes(evs, j, i));
        lemma_count_mono(evs, j, i, evs.len() as int);
    }
}

/// Events that tie keep their order: of two events with the same tick and
/// rank, the earlier one is placed first.
pub proof fn law_sort_is_stable(evs: Seq<EventView>, i: int, j: int)
    requires
        0 <= i < j < evs.len(),
        key_eq(evs[i], evs[j]),
    ensures
        sorted_position(evs, i) < sorted_position(evs, j),
{
    assert(precedes(evs, i, j));
    lemma_count_mono(evs, i, j, evs.len() as int);
}

/// Under a `bars` limit every event that stays lies inside the clip.
pub proof fn law_bars_events_inside(evs: Seq<EventView>, max: int, k: int, x: int)
    requires
        0 < max <= u64::MAX,
        0 <= k <= evs.len(),
        0 <= x < kept_events(evs, max, k).len(),
    ensures
        kept_events(evs, max, k)[x].tick < max,
    decreases k,
{
    if k > 0 {
        let pre = kept_events(evs, max, k - 1);
        if x < pre.len() {
            law_bars_events_inside(evs, max, k - 1, x);
        }
    }
}

/// The events that stay before event `i` are a prefix of those that stay.
proof fn lemma_kept_grows(evs: Seq<EventView>, max: int, i: int, k: int)
    requires
        0 <= i <= k <= evs.len(),
    ensures
        kept_events(evs, max, i).len() <= kept_events(evs, max, k).len(),
        i < k && !(fate(evs, max, i) is Drop) ==> kept_events(evs, max, i).len() < kept_events(evs, max, k).len(),
    decreases k - i,
{
    if i < k {
        lemma_kept_grows(evs, max, i, k - 1);
        if i == k - 1 {
        }
    }
}

/// Every index moved along by the limit names an event that stays.
proof fn lemma_remap_below(evs: Seq<EventView>, max: int, idxs: Seq<usize>, k: int)
    requires
        0 <= k <= idxs.len(),
        kept_events(evs, max, evs.len() as int).len() <= usize::MAX,
    ensures
        indices_below(remap_list(evs, max, idxs, k), kept_events(evs, max, evs.len() as int).len() as int),
    decreases k,
{
    if k > 0 {
        lemma_remap_below(evs, max, idxs, k - 1);
        let i = idxs[k - 1] as int;
        if new_index(evs, max, i) is Some {
            lemma_kept_grows(evs, max, i, evs.len() as int);
        }
    }
}

/// Under a `bars` limit every group index names an event that stays, so a
/// limited clip never fails for a stale group index.
pub proof fn law_bars_groups_valid(evs: Seq<EventView>, max: int, drums: Seq<DrumGroupView>, randoms: Seq<Seq<Seq<usize>>>)
    requires
        kept_events(evs, max, evs.len() as int).len() <= usize::MAX,
    ensures
        drum_indices_below(drums_after(evs, max, drums, drums.len() as int), kept_events(evs, max, evs.len() as int).len() as int),
        random_indices_below(
            randoms_after(evs, max, randoms, randoms.len() as int),
            kept_events(evs, max, evs.len() as int).len() as int,
        ),
{
    lemma_drums_after_below(evs, max, drums, drums.len() as int);
    lemma_randoms_after_below(evs, max, randoms, randoms.len() as int);
}

proof fn lemma_drums_after_below(evs: Seq<EventView>, max: int, gs: Seq<DrumGroupView>, k: int)
    requires
        0 <= k <= gs.len(),
        kept_events(evs, max, evs.len() as int).len() <= usize::MAX,
    ensures
        drum_indices_below(drums_after(evs, max, gs, k), kept_events(evs, max, evs.len() as int).len() as int),
    decreases k,
{
    if k > 0 {
        lemma_drums_after_below(evs, max, gs, k - 1);
        lemma_remap_below(evs, max, gs[k - 1].indices, gs[k - 1].indices.len() as int);
        let pre = drums_after(evs, max, gs, k - 1);
        let cur = drums_after(evs, max, gs, k);
        let n = kept_events(evs, max, evs.len() as int).len() as int;
        assert forall|g: int| 0 <= g < cur.len() implies #[trigger] indices_below(cur[g].indices, n) by {
            if g < pre.len() {
                assert(cur[g] == pre[g]);
            }
        }
    }
}

proof fn lemma_candidates_after_below(evs: Seq<EventView>, max: int, g: Seq<Seq<usize>>, k: int)
    requires
        0 <= k <= g.len(),
        kept_events(evs, max, evs.len() as int).len() <= usize::MAX,
    ensures
        forall|c: int|
            0 <= c < candidates_after(evs, max, g, k).len() ==> #[trigger] indices_below(
                candidates_after(evs, max, g, k)[c],
                kept_events(evs, max, evs.len() as int).len() as int,
            ),
    decreases k,
{
    if k > 0 {
        lemma_candidates_after_below(evs, max, g, k - 1);
        lemma_remap_below(evs, max, g[k - 1], g[k - 1].len() as int);
        let pre = candidates_after(evs, max, g, k - 1);
        let cur = candidates_after(evs, max, g, k);
        let n = kept_events(evs, max, evs.len() as int).len() as int;
        assert forall|c: int| 0 <= c < cur.len() implies #[trigger] indices_below(cur[c], n) by {
            if c < pre.len() {
                assert(cur[c] == pre[c]);
            }
        }
    }
}

proof fn lemma_randoms_after_below(evs: Seq<EventView>, max: int, gs: Seq<Seq<Seq<usize>>>, k: int)
    requires
        0 <= k <= gs.len(),
        kept_events(evs, max, evs.len() as int).len() <= usize::MAX,
    ensures
        random_indices_below(randoms_after(evs, max, gs, k), kept_events(evs, max, evs.len() as int).len() as int),
    decreases k,
{
    if k > 0 {
        lemma_randoms_after_below(evs, max, gs, k - 1);
        lemma_candidates_after_below(evs, max, gs[k - 1], gs[k - 1].len() as int);
        let pre = randoms_after(evs, max, gs, k - 1);
        let cur = randoms_after(evs, max, gs, k);
        let n = kept_events(evs, max, evs.len() as int).len() as int;
        assert forall|g: int, c: int| 0 <= g < cur.len() && 0 <= c < cur[g].len() implies #[trigger] indices_below(cur[g][c], n) by {
            if g < pre.len() {
                assert(cur[g] == pre[g]);
            }
        }
    }
}


/// A call on a scene player that touches its clips.
pub enum SceneCall {
    AddClip(String),
    MuteClip(String),
    PauseClip(String),
    AdvanceAll(u64),
}

/// `s1` is what `call` leaves of `s0`, as far as the call's contract
/// speaks of the clips' names.
pub open spec fn call_done(s0: ScenePlayer, call: SceneCall, s1: ScenePlayer) -> bool {
    let (p0, p1) = (s0.players_spec(), s1.players_spec());
    match call {
        SceneCall::AddClip(n) => p1.len() == p0.len() + 1 && p1.drop_last() == p0 && p1.last().0 == n,
        SceneCall::MuteClip(n) => (!has_name(p0, n@) ==> p1 == p0) && forall|i: int|
            #[trigger] first_named(p0, n@, i) ==> only_player_changed(p0, p1, i),
        SceneCall::PauseClip(n) => (!has_name(p0, n@) ==> p1 == p0) && forall|i: int|
            #[trigger] first_named(p0, n@, i) ==> only_player_changed(p0, p1, i),
        SceneCall::AdvanceAll(t) => p1.len() == p0.len() && forall|i: int|
            0 <= i < p0.len() ==> (#[trigger] p1[i]).0 == p0[i].0 && ClipPlayer::advanced(p0[i].1, p1[i].1, t),
    }
}

/// The call adds a clip named `n`.
pub open spec fn adds(call: SceneCall, n: Seq<char>) -> bool {
    match call {
        SceneCall::AddClip(m) => m@ == n,
        _ => false,
    }
}

/// Some call among the first `k` adds a clip named `n`.
pub open spec fn added_before(calls: Seq<SceneCall>, n: Seq<char>, k: int) -> bool {
    exists|j: int| 0 <= j < k && #[trigger] adds(calls[j], n)
}

/// Two player lists with the same names, entry by entry.
proof fn lemma_same_names(p0: Seq<(String, ClipPlayer)>, p1: Seq<(String, ClipPlayer)>, n: Seq<char>)
    requires
        p1.len() == p0.len(),
        forall|i: int| 0 <= i < p0.len() ==> (#[trigger] p1[i]).0 == p0[i].0,
    ensures
        has_name(p1, n) == has_name(p0, n),
{
    if has_name(p0, n) {
        let i = choose|i: int| 0 <= i < p0.len() && (#[trigger] p0[i]).0@ == n;
        assert(p1[i].0 == p0[i].0);
    }
    if has_name(p1, n) {
        let i = choose|i: int| 0 <= i < p1.len() && (#[trigger] p1[i]).0@ == n;
        assert(p1[i].0 == p0[i].0);
    }
}

/// One call keeps or extends the names as the law states.
proof fn lemma_call_names(s0: ScenePlayer, call: SceneCall, s1: ScenePlayer, n: Seq<char>)
    requires
        call_done(s0, call, s1),
    ensures
        has_name(s1.players_spec(), n) == (has_name(s0.players_spec(), n) || adds(call, n)),
{
    let (p0, p1) = (s0.players_spec(), s1.players_spec());
    match call {
        SceneCall::AddClip(m) => {
            if has_name(p0, n) {
                let i = choose|i: int| 0 <= i < p0.len() && (#[trigger] p0[i]).0@ == n;
                assert(p1.drop_last()[i] == p1[i]);
            }
            if m@ == n {
                assert(p1[p1.len() - 1].0@ == n);
            }
            if has_name(p1, n) {
                let i = choose|i: int| 0 <= i < p1.len() && (#[trigger] p1[i]).0@ == n;
                if i < p0.len() {
                    assert(p1.drop_last()[i] == p1[i]);
                }
            }
        },
        SceneCall::MuteClip(m) | SceneCall::PauseClip(m) => {
            if has_name(p0, m@) {
                crate::control::lemma_first_named(s0, m@);
                let f = choose|f: int| first_named(p0, m@, f);
                assert(only_player_changed(p0, p1, f));
                assert forall|i: int| 0 <= i < p0.len() implies (#[trigger] p1[i]).0 == p0[i].0 by {
                    if i != f {
                        assert(p1[i] == p0[i]);
                    }
                }
                lemma_same_names(p0, p1, n);
            }
        },
        SceneCall::AdvanceAll(t) => {
            lemma_same_names(p0, p1, n);
        },
    }
}

/// A scene player knows a clip exactly when one of that name was added to
/// it: starting empty, after any run of `add_clip`, `mute_clip`,
/// `pause_clip` and `advance_all` calls, `has_clip(n)` holds exactly when
/// some `add_clip` named `n`. (A name the scene does not know is never
/// reported muted or paused and has no channels: see `is_muted`,
/// `is_clip_paused` and `channels_of_clip`.)
pub proof fn law_has_clip_tracks_added(scenes: Seq<ScenePlayer>, calls: Seq<SceneCall>, n: Seq<char>)
    requires
        scenes.len() == calls.len() + 1,
        scenes[0].players_spec().len() == 0,
        forall|k: int| 0 <= k < calls.len() ==> #[trigger] call_done(scenes[k], calls[k], scenes[k + 1]),
    ensures
        has_name(scenes.last().players_spec(), n) == added_before(calls, n, calls.len() as int),
    decreases calls.len(),
{
    if calls.len() == 0 {
        assert(!has_name(scenes[0].players_spec(), n));
    } else {
        let k = calls.len() - 1;
        law_has_clip_tracks_added(scenes.drop_last(), calls.drop_last(), n);
        assert(scenes.drop_last().last() == scenes[k]);
        assert(call_done(scenes[k], calls[k], scenes[k + 1]));
        lemma_call_names(scenes[k], calls[k], scenes[k + 1], n);
        if added_before(calls.drop_last(), n, k) {
            let j = choose|j: int| 0 <= j < k && #[trigger] adds(calls.drop_last()[j], n);
            assert(calls[j] == calls.drop_last()[j]);
        }
        if added_before(calls, n, calls.len() as int) {
            let j = choose|j: int| 0 <= j < calls.len() && #[trigger] adds(calls[j], n);
            if j < k {
                assert(calls[j] == calls.drop_last()[j]);
            }
        }
    }
}


/// `v` is `p / q` rounded half away from zero, for `p >= 0`, `q > 0`:
/// `2·v·q - q <= 2·p < 2·v·q + q`.
proof fn lemma_round_div_bounds(p: int, q: int)
    requires
        p >= 0,
        q > 0,
    ensures
        2 * crate::cc::round_div(p, q) * q - q <= 2 * p < 2 * crate::cc::round_div(p, q) * q + q,
{
    let v = crate::cc::round_div(p, q);
    vstd::arithmetic::div_mod::lemma_fundamental_div_mod(2 * p + q, 2 * q);
    vstd::arithmetic::div_mod::lemma_mod_pos_bound(2 * p + q, 2 * q);
    assert(2 * p + q == (2 * q) * v + (2 * p + q) % (2 * q));
    assert((2 * q) * v == 2 * v * q) by (nonlinear_arith);
}

/// An exponential CC ramp of `n` steps from `a` to `b` sends at step `s`
/// the value `a + (b - a)·s²/n²`, rounded half away from zero: twice the
/// exact value (scaled by `n²`) lies within `n²` of twice the value sent.
pub proof fn law_exponential_ramp_value(a: u8, b: u8, s: int, n: int)
    requires
        1 <= s <= n,
    ensures
        ({
            let v = crate::cc::ramp_value(crate::ast::Interpolation::Exponential, a, b, s, n);
            let exact = a * (n * n) + (b - a) * (s * s);
            &&& 2 * v * (n * n) - n * n <= 2 * exact
            &&& 2 * exact < 2 * v * (n * n) + n * n
        }),
{
    let nn = n * n;
    let ss = s * s;
    assert(1 <= ss <= nn) by (nonlinear_arith)
        requires
            1 <= s <= n,
            nn == n * n,
            ss == s * s,
    ;
    let exact = a * nn + (b - a) * ss;
    assert(exact >= 0) by (nonlinear_arith)
        requires
            exact == a * nn + (b - a) * ss,
            0 <= a <= 255,
            0 <= b <= 255,
            1 <= ss <= nn,
    ;
    assert(a * n * n + (b - a) * s * s == exact) by (nonlinear_arith)
        requires
            nn == n * n,
            ss == s * s,
            exact == a * nn + (b - a) * ss,
    ;
    lemma_round_div_bounds(exact, nn);
}

/// A linear CC ramp of `n` steps from `a` to `b` sends at step `s` the
/// value `a + (b - a)·s/n`, rounded half away from zero: twice the exact
/// value (scaled by `n`) lies within `n` of twice the value sent.
pub proof fn law_linear_ramp_value(a: u8, b: u8, s: int, n: int)
    requires
        1 <= s <= n,
    ensures
        ({
            let v = crate::cc::ramp_value(crate::ast::Interpolation::Linear, a, b, s, n);
            let exact = a * n + (b - a) * s;
            &&& 2 * v * n - n <= 2 * exact
            &&& 2 * exact < 2 * v * n + n
        }),
{
    let exact = a * n + (b - a) * s;
    assert(exact >= 0) by (nonlinear_arith)
        requires
            exact == a * n + (b - a) * s,
            0 <= a <= 255,
            0 <= b <= 255,
            1 <= s <= n,
    ;
    lemma_round_div_bounds(exact, n);
}

/// An up arpeggio plays the chord's notes once each, lowest to highest; a
/// down arpeggio plays them once each, highest to lowest.
pub proof fn law_up_and_down_arpeggios(notes: Seq<u8>)
    ensures
        ({
            let up = crate::arpeggio::arpeggio_sequence(notes, crate::ast::ArpeggioDirection::Up);
            let down = crate::arpeggio::arpeggio_sequence(notes, crate::ast::ArpeggioDirection::Down);
            &&& up.to_multiset() == notes.to_multiset()
            &&& down.to_multiset() == notes.to_multiset()
            &&& up.len() == notes.len() && down.len() == notes.len()
            &&& forall|i: int, j: int| 0 <= i <= j < up.len() ==> up[i] <= up[j]
            &&& forall|i: int, j: int| 0 <= i <= j < down.len() ==> down[j] <= down[i]
        }),
{
    let le = crate::arpeggio::note_le();
    reveal(vstd::relations::total_ordering);
    notes.lemma_sort_by_ensures(le);
    vstd::seq_lib::to_multiset_len(notes);
    vstd::seq_lib::to_multiset_len(notes.sort_by(le));
    let sorted = crate::arpeggio::ascending(notes);
    assert forall|i: int, j: int| 0 <= i <= j < sorted.len() implies sorted[i] <= sorted[j] by {
        if i < j {
            assert(le(sorted[i], sorted[j]));
        }
    }
    if notes.len() > 0 {
        sorted.lemma_reverse_to_multiset();
        let down = sorted.reverse();
        assert forall|i: int, j: int| 0 <= i <= j < down.len() implies down[j] <= down[i] by {
            assert(down[i] == sorted[sorted.len() - 1 - i]);
            assert(down[j] == sorted[sorted.len() - 1 - j]);
        }
    } else {
        assert(notes =~= Seq::<u8>::empty());
    }
}

/// An exponential ramp lags the linear one: rising, it never sends more at
/// a step than the linear ramp over the same span; falling, never less.
pub proof fn law_exponential_ramp_lags_linear(a: u8, b: u8, s: int, n: int)
    requires
        1 <= s <= n,
    ensures
        a <= b ==> crate::cc::ramp_value(crate::ast::Interpolation::Exponential, a, b, s, n) <= crate::cc::ramp_value(
            crate::ast::Interpolation::Linear,
            a,
            b,
            s,
            n,
        ),
        b <= a ==> crate::cc::ramp_value(crate::ast::Interpolation::Exponential, a, b, s, n) >= crate::cc::ramp_value(
            crate::ast::Interpolation::Linear,
            a,
            b,
            s,
            n,
        ),
{
    let nn = n * n;
    let pe = a * nn + (b - a) * (s * s);
    let pl = a * n + (b - a) * s;
    let ve = crate::cc::ramp_value(crate::ast::Interpolation::Exponential, a, b, s, n);
    let vl = crate::cc::ramp_value(crate::ast::Interpolation::Linear, a, b, s, n);
    assert(1 <= s * s <= s * n <= nn) by (nonlinear_arith)
        requires
            1 <= s <= n,
            nn == n * n,
    ;
    assert(pe >= 0 && pl >= 0) by (nonlinear_arith)
        requires
            pe == a * nn + (b - a) * (s * s),
            pl == a * n + (b - a) * s,
            0 <= a <= 255,
            0 <= b <= 255,
            1 <= s * s <= nn,
            1 <= s <= n,
    ;
    assert(a * n * n + (b - a) * s * s == pe) by (nonlinear_arith)
        requires
            nn == n * n,
            pe == a * nn + (b - a) * (s * s),
    ;
    assert(a * n + (b - a) * s == pl);
    lemma_round_div_bounds(pe, nn);
    lemma_round_div_bounds(pl, n);
    assert(ve == crate::cc::round_div(pe, nn));
    assert(vl == crate::cc::round_div(pl, n));
    // Scaled by n, the linear bounds speak of n·pl over n².
    assert(2 * vl * nn - nn <= 2 * (pl * n) < 2 * vl * nn + nn) by (nonlinear_arith)
        requires
            2 * vl * n - n <= 2 * pl < 2 * vl * n + n,
            nn == n * n,
            n >= 1,
    ;
    assert(pl * n - pe == (b - a) * (s * n - s * s)) by (nonlinear_arith)
        requires
            pe == a * nn + (b - a) * (s * s),
            pl == a * n + (b - a) * s,
            nn == n * n,
    ;
    if a <= b {
        assert((b - a) * (s * n - s * s) >= 0) by (nonlinear_arith)
            requires
                a <= b,
                s * s <= s * n,
        ;
        assert(ve <= vl) by (nonlinear_arith)
            requires
                2 * ve * nn - nn <= 2 * pe,
                2 * (pl * n) < 2 * vl * nn + nn,
                pe <= pl * n,
                nn >= 1,
        ;
    }
    if b <= a {
        assert((b - a) * (s * n - s * s) <= 0) by (nonlinear_arith)
            requires
                b <= a,
                s * s <= s * n,
        ;
        assert(ve >= vl) by (nonlinear_arith)
            requires
                2 * pe < 2 * ve * nn + nn,
                2 * vl * nn - nn <= 2 * (pl * n),
                pl * n <= pe,
                nn >= 1,
        ;
    }
}

/// An up-down arpeggio cycle over `k >= 2` notes is the notes ascending,
/// then back down over the inner notes: step `i` of the way down plays
/// the note `2k - 2 - i` of the ascending order, so the cycle rises to
/// its highest note and from there only goes down, never repeating the
/// lowest or highest note.
pub proof fn law_updown_rises_then_falls(notes: Seq<u8>)
    requires
        notes.len() >= 2,
    ensures
        ({
            let k = notes.len() as int;
            let up = crate::arpeggio::ascending(notes);
            let cyc = crate::arpeggio::arpeggio_sequence(notes, crate::ast::ArpeggioDirection::UpDown);
            &&& cyc.len() == 2 * k - 2
            &&& forall|i: int| 0 <= i < k ==> #[trigger] cyc[i] == up[i]
            &&& forall|i: int| k <= i < 2 * k - 2 ==> #[trigger] cyc[i] == up[2 * k - 2 - i]
            &&& forall|i: int| 0 <= i < k - 1 ==> #[trigger] cyc[i] <= cyc[i + 1]
            &&& forall|i: int| k - 1 <= i < 2 * k - 3 ==> #[trigger] cyc[i + 1] <= cyc[i]
        }),
{
    let k = notes.len() as int;
    let le = crate::arpeggio::note_le();
    reveal(vstd::relations::total_ordering);
    notes.lemma_sort_by_ensures(le);
    vstd::seq_lib::to_multiset_len(notes);
    vstd::seq_lib::to_multiset_len(notes.sort_by(le));
    let up = crate::arpeggio::ascending(notes);
    assert(up.len() == k);
    let cyc = crate::arpeggio::arpeggio_sequence(notes, crate::ast::ArpeggioDirection::UpDown);
    assert(vstd::relations::sorted_by(up, le));
    assert forall|i: int, j: int| 0 <= i <= j < k implies up[i] <= up[j] by {
        if i < j {
            assert(le(up[i], up[j]));
        }
    }
    assert forall|i: int| k <= i < 2 * k - 2 implies #[trigger] cyc[i] == up[2 * k - 2 - i] by {
        let mid = up.subrange(1, k - 1);
        assert(cyc[i] == mid.reverse()[i - k]);
    }
    assert forall|i: int| 0 <= i < k - 1 implies #[trigger] cyc[i] <= cyc[i + 1] by {
        assert(cyc[i] == up[i] && cyc[i + 1] == up[i + 1]);
    }
    assert forall|i: int| k - 1 <= i < 2 * k - 3 implies #[trigger] cyc[i + 1] <= cyc[i] by {
        assert(cyc[i + 1] == up[2 * k - 3 - i]);
        if i == k - 1 {
            assert(cyc[i] == up[k - 1]);
        } else {
            assert(cyc[i] == up[2 * k - 2 - i]);
        }
    }
}

/// The (device, channel) pairs of a list of events, as used for All Notes
/// Off: every event's pair is there, whatever other pairs share its
/// channel or its device; every pair listed is the pair of some event;
/// and none is listed twice.
pub proof fn law_distinct_pairs_cover(events: Seq<MidiEvent>)
    ensures
        forall|i: int| 0 <= i < events.len() ==> distinct_pairs(events).contains(#[trigger] pair_of(events[i])),
        forall|j: int|
            0 <= j < distinct_pairs(events).len() ==> exists|i: int|
                0 <= i < events.len() && #[trigger] pair_of(events[i]) == #[trigger] distinct_pairs(events)[j],
        distinct_pairs(events).no_duplicates(),
    decreases events.len(),
{
    if events.len() > 0 {
        let pre = events.drop_last();
        law_distinct_pairs_cover(pre);
        let prev = distinct_pairs(pre);
        let d = distinct_pairs(events);
        let last = pair_of(events.last());
        assert forall|i: int| 0 <= i < events.len() implies d.contains(#[trigger] pair_of(events[i])) by {
            if i < events.len() - 1 {
                assert(events[i] == pre[i]);
                assert(prev.contains(pair_of(pre[i])));
                let j = choose|j: int| 0 <= j < prev.len() && prev[j] == pair_of(pre[i]);
                assert(d[j] == prev[j]);
            } else {
                if !prev.contains(last) {
                    assert(d[prev.len() as int] == last);
                } else {
                    let j = choose|j: int| 0 <= j < prev.len() && prev[j] == last;
                    assert(d[j] == prev[j]);
                }
            }
        }
        assert forall|j: int| 0 <= j < d.len() implies exists|i: int| 0 <= i < events.len() && #[trigger] pair_of(events[i]) == #[trigger] d[j] by {
            if j < prev.len() {
                let i = choose|i: int| 0 <= i < pre.len() && #[trigger] pair_of(pre[i]) == prev[j];
                assert(pre[i] == events[i]);
                assert(pair_of(events[i]) == d[j]);
            } else {
                assert(pair_of(events[events.len() - 1]) == d[j]);
            }
        }
    }
}

/// The event at position `j` of player `i`'s clip is among the events of
/// the first `n > i` players.
proof fn lemma_all_events_has(ps: Seq<(String, ClipPlayer)>, i: int, j: int, n: int)
    requires
        0 <= i < n <= ps.len(),
        0 <= j < ps[i].1.clip_spec().events@.len(),
    ensures
        all_events(ps, n).contains(ps[i].1.clip_spec().events@[j]),
    decreases n,
{
    let e = ps[i].1.clip_spec().events@[j];
    if n - 1 == i {
        let pre = all_events(ps, n - 1);
        assert(all_events(ps, n)[pre.len() + j] == e);
    } else {
        lemma_all_events_has(ps, i, j, n - 1);
        let pre = all_events(ps, n - 1);
        let k = choose|k: int| 0 <= k < pre.len() && pre[k] == e;
        assert(all_events(ps, n)[k] == e);
    }
}

/// After `stop` of a playing scene, the All Notes Off queue holds the
/// (device, channel) pair of every event of every clip of the scene, so
/// no held note on any device is left sounding.
pub proof fn law_stop_silences_every_pair(
    s: ScenePlayer,
    s1: Option<ScenePlayer>,
    n1: Option<String>,
    q0: Seq<(String, crate::domain::MidiChannel)>,
    q1: Seq<(String, crate::domain::MidiChannel)>,
    i: int,
    j: int,
)
    requires
        crate::commands::stopped(Some(s), s1, n1, q0, q1),
        0 <= i < s.players_spec().len(),
        0 <= j < s.players_spec()[i].1.clip_spec().events@.len(),
    ensures
        pairs_view(q1).contains(pair_of(s.players_spec()[i].1.clip_spec().events@[j])),
{
    let ps = s.players_spec();
    let evs = all_events(ps, ps.len() as int);
    let e = ps[i].1.clip_spec().events@[j];
    lemma_all_events_has(ps, i, j, ps.len() as int);
    law_distinct_pairs_cover(evs);
    let k = choose|k: int| 0 <= k < evs.len() && evs[k] == e;
    assert(distinct_pairs(evs).contains(pair_of(evs[k])));
    let sp = crate::control::scene_pairs(s);
    let m = choose|m: int| 0 <= m < sp.len() && sp[m] == pair_of(e);
    assert(pairs_view(q1)[pairs_view(q0).len() + m] == pair_of(e));
}

/// After `mute` of a clip of the playing scene, the All Notes Off queue
/// holds the (device, channel) pair of every event of that clip.
pub proof fn law_mute_silences_every_pair(
    s: ScenePlayer,
    s1: Option<ScenePlayer>,
    q0: Seq<(String, crate::domain::MidiChannel)>,
    q1: Seq<(String, crate::domain::MidiChannel)>,
    cmd: crate::ast::MuteCommand,
    r: crate::evaluation::EvalResult,
    f: int,
    j: int,
)
    requires
        crate::control::mute_outcome(Some(s), s1, q0, q1, cmd, r),
        first_named(s.players_spec(), cmd.target@, f),
        0 <= j < s.players_spec()[f].1.clip_spec().events@.len(),
    ensures
        pairs_view(q1).contains(pair_of(s.players_spec()[f].1.clip_spec().events@[j])),
{
    let ps = s.players_spec();
    assert(has_name(ps, cmd.target@));
    let g = choose|g: int| first_named(ps, cmd.target@, g);
    assert(g == f) by {
        if g < f {
            assert(ps[g].0@ != cmd.target@);
        } else if f < g {
            assert(ps[f].0@ != cmd.target@);
        }
    }
    let evs = ps[f].1.clip_spec().events@;
    law_distinct_pairs_cover(evs);
    let cp = crate::control::clip_pairs(s, cmd.target@);
    assert(cp == distinct_pairs(evs));
    assert(cp.contains(pair_of(evs[j])));
    let m = choose|m: int| 0 <= m < cp.len() && cp[m] == pair_of(evs[j]);
    assert(pairs_view(q1)[pairs_view(q0).len() + m] == pair_of(evs[j]));
}

} // verus!
