//! Evaluation of the playback control commands `pause`, `resume`, `mute`
//! and `unmute` against the playing scene. A target names the playing
//! scene or session (the whole playback) or a clip of the playing scene;
//! anything else leaves playback as it is. Channels that stop sounding are
//! queued for All Notes Off.
//!
//! The playback state (what plays, whether it is paused) is read as a
//! `PlaybackView`; the change to make to it is returned as a
//! `StateChange` for the caller to apply.

use vstd::prelude::*;

use crate::ast::{MuteCommand, PauseCommand, RepeatSpec, ResumeCommand, UnmuteCommand};
use crate::domain::MidiChannel;
use crate::evaluation::EvalResult;
use crate::run::RunProgress;
use crate::player::{all_channel_events, distinct_pairs, first_named, has_name, only_player_changed, pairs_view, all_events, ClipPlayer, ScenePlayer};
use crate::text::{owned, same_text};

verus! {

/// The playback state as the commands see it.
#[derive(Clone, Debug, PartialEq, Eq)]
pub struct PlaybackView {
    /// A scene or session is playing (not stopped, not paused).
    pub playing: bool,
    /// Playback is paused.
    pub paused: bool,
    /// The name of the scene or session that plays (or was playing when
    /// paused).
    pub current: Option<String>,
    /// What plays (or was playing when paused) is a session.
    pub session: bool,
    /// How often the scene or session that plays is to be played.
    pub repeat: RepeatSpec,
    /// How far it has come.
    pub progress: RunProgress,
}

/// A change to make to the playback state.
#[derive(Clone, Debug, PartialEq, Eq)]
pub enum StateChange {
    Keep,
    /// Start playing this scene.
    PlayScene { name: String, repeat: RepeatSpec },
    /// Start playing this session.
    PlaySession { name: String, repeat: RepeatSpec },
    /// Stop playback, for this target.
    Stop(Option<String>),
    /// Pause playback, for this target.
    Pause(Option<String>),
    /// Resume playback, for this target.
    Resume(Option<String>),
}

/// The playing scene, if any, is well formed and carries channel messages
/// only.
pub open spec fn live_scene(scene: Option<ScenePlayer>) -> bool {
    scene matches Some(s) ==> s.wf() && channels_known(s)
}

/// The player's clip, and the clip waiting to replace it, carry channel
/// messages only.
pub open spec fn player_voiced(p: ClipPlayer) -> bool {
    &&& all_channel_events(p.clip_spec().events@)
    &&& p.pending_spec() matches Some(c) ==> all_channel_events(c.events@)
}

/// Every clip of the scene, and every clip waiting to be swapped in,
/// carries channel messages only.
pub open spec fn channels_known(s: ScenePlayer) -> bool {
    forall|i: int| 0 <= i < s.players_spec().len() ==> player_voiced((#[trigger] s.players_spec()[i]).1)
}

/// `new` is `old` with the first clip named `name` muted (or not).
pub open spec fn first_muted(old: ScenePlayer, new: ScenePlayer, name: Seq<char>, muted: bool) -> bool {
    &&& new.wf()
    &&& forall|i: int|
        #[trigger] first_named(old.players_spec(), name, i) ==> {
            &&& only_player_changed(old.players_spec(), new.players_spec(), i)
            &&& new.players_spec()[i].1.muted_spec() == muted
            &&& new.players_spec()[i].1.same_but_muted(old.players_spec()[i].1)
        }
}

/// `new` is `old` with the first clip named `name` paused (or not).
pub open spec fn first_paused(old: ScenePlayer, new: ScenePlayer, name: Seq<char>, paused: bool) -> bool {
    &&& new.wf()
    &&& forall|i: int|
        #[trigger] first_named(old.players_spec(), name, i) ==> {
            &&& only_player_changed(old.players_spec(), new.players_spec(), i)
            &&& new.players_spec()[i].1.paused_spec() == paused
            &&& new.players_spec()[i].1.same_but_paused(old.players_spec()[i].1)
        }
}

/// `new` is `old` with every clip paused (or not).
pub open spec fn all_paused(old: ScenePlayer, new: ScenePlayer, paused: bool) -> bool {
    &&& new.wf()
    &&& new.players_spec().len() == old.players_spec().len()
    &&& forall|i: int|
        0 <= i < old.players_spec().len() ==> {
            &&& (#[trigger] new.players_spec()[i]).0 == old.players_spec()[i].0
            &&& new.players_spec()[i].1.paused_spec() == paused
            &&& new.players_spec()[i].1.same_but_paused(old.players_spec()[i].1)
        }
}

/// The (device, channel) pairs of the first clip named `name`.
pub open spec fn clip_pairs(s: ScenePlayer, name: Seq<char>) -> Seq<(Seq<char>, MidiChannel)> {
    if has_name(s.players_spec(), name) {
        distinct_pairs(s.players_spec()[choose|i: int| first_named(s.players_spec(), name, i)].1.clip_spec().events@)
    } else {
        Seq::empty()
    }
}

/// The (device, channel) pairs of every clip of the scene.
pub open spec fn scene_pairs(s: ScenePlayer) -> Seq<(Seq<char>, MidiChannel)> {
    distinct_pairs(all_events(s.players_spec(), s.players_spec().len() as int))
}

/// The reason of a mute or unmute with nothing to act on.
pub open spec fn not_a_clip(name: Seq<char>) -> Seq<char> {
    "'"@ + name + "' is not a clip in active scene"@
}

/// The reason of a pause with nothing to act on.
pub open spec fn nothing_to_pause(name: Seq<char>) -> Seq<char> {
    "'"@ + name + "' is not the current scene/session nor a clip in active scene"@
}

/// The reason of a resume with nothing to act on.
pub open spec fn nothing_to_resume(name: Seq<char>) -> Seq<char> {
    "'"@ + name + "' is not a paused scene/session nor a clip in active scene"@
}

/// The first clip named `name` exists when some clip has the name.
pub(crate) proof fn lemma_first_named(s: ScenePlayer, name: Seq<char>)
    requires
        has_name(s.players_spec(), name),
    ensures
        exists|i: int| first_named(s.players_spec(), name, i),
{
    let ps = s.players_spec();
    let k = choose|k: int| 0 <= k < ps.len() && (#[trigger] ps[k]).0@ == name;
    lemma_first_named_from(ps, name, k);
}

pub(crate) proof fn lemma_first_named_from(ps: Seq<(String, crate::player::ClipPlayer)>, name: Seq<char>, k: int)
    requires
        0 <= k < ps.len(),
        ps[k].0@ == name,
    ensures
        exists|i: int| first_named(ps, name, i),
    decreases k,
{
    if forall|j: int| 0 <= j < k ==> (#[trigger] ps[j]).0@ != name {
        assert(first_named(ps, name, k));
    } else {
        let j = choose|j: int| 0 <= j < k && (#[trigger] ps[j]).0@ == name;
        lemma_first_named_from(ps, name, j);
    }
}

/// Appends the channels of the first clip named `name` to the queue.
fn queue_clip_channels(s: &ScenePlayer, name: &str, queue: &mut Vec<(String, MidiChannel)>)
    requires
        channels_known(*s),
    ensures
        pairs_view(final(queue)@) == pairs_view(old(queue)@) + clip_pairs(*s, name@),
{
    let ghost pre = pairs_view(queue@);
    let mut channels = s.channels_of_clip(name);
    proof {
        if has_name(s.players_spec(), name@) {
            lemma_first_named(*s, name@);
        }
    }
    let ghost more = pairs_view(channels@);
    queue.append(&mut channels);
    assert(pairs_view(queue@) =~= pre + more);
}

/// Appends the channels of every clip of the scene to the queue.
pub(crate) fn queue_scene_channels(s: &ScenePlayer, queue: &mut Vec<(String, MidiChannel)>)
    requires
        channels_known(*s),
    ensures
        pairs_view(final(queue)@) == pairs_view(old(queue)@) + scene_pairs(*s),
{
    let ghost pre = pairs_view(queue@);
    let mut channels = s.channels_in_use();
    let ghost more = pairs_view(channels@);
    queue.append(&mut channels);
    assert(pairs_view(queue@) =~= pre + more);
}

/// What `mute` does: see `eval_mute`.
pub open spec fn mute_outcome(
    s0: Option<ScenePlayer>,
    s1: Option<ScenePlayer>,
    q0: Seq<(String, MidiChannel)>,
    q1: Seq<(String, MidiChannel)>,
    cmd: MuteCommand,
    r: EvalResult,
) -> bool {
    match s0 {
        Some(s) if has_name(s.players_spec(), cmd.target@) => {
            &&& r matches EvalResult::Muted { target } && target@ == cmd.target@
            &&& s1 matches Some(s2) && first_muted(s, s2, cmd.target@, true)
            &&& pairs_view(q1) == pairs_view(q0) + clip_pairs(s, cmd.target@)
        },
        _ => {
            &&& r matches EvalResult::MutedNoop { reason } && reason@ == not_a_clip(cmd.target@)
            &&& s1 == s0
            &&& q1 == q0
        },
    }
}

/// `mute <clip>`: mutes the first clip of that name of the playing scene
/// and queues its channels; otherwise nothing changes.
pub fn eval_mute(scene: &mut Option<ScenePlayer>, all_notes_off: &mut Vec<(String, MidiChannel)>, cmd: MuteCommand) -> (r: EvalResult)
    requires
        *old(scene) matches Some(s) ==> s.wf() && channels_known(s),
    ensures
        mute_outcome(*old(scene), *final(scene), old(all_notes_off)@, final(all_notes_off)@, cmd, r),
{
    let name = cmd.target;
    let taken = scene.take();
    match taken {
        Some(mut s) => {
            if s.has_clip(name.as_str()) {
                queue_clip_channels(&s, name.as_str(), all_notes_off);
                s.mute_clip(name.as_str());
                *scene = Some(s);
                return EvalResult::Muted { target: name };
            }
            *scene = Some(s);
        },
        None => {},
    }
    let mut reason = owned("'");
    reason.append(name.as_str());
    reason.append("' is not a clip in active scene");
    EvalResult::MutedNoop { reason }
}

/// What `unmute` does: see `eval_unmute`.
pub open spec fn unmute_outcome(s0: Option<ScenePlayer>, s1: Option<ScenePlayer>, cmd: UnmuteCommand, r: EvalResult) -> bool {
    match s0 {
        Some(s) if has_name(s.players_spec(), cmd.target@) => {
            &&& r matches EvalResult::Unmuted { target } && target@ == cmd.target@
            &&& s1 matches Some(s2) && first_muted(s, s2, cmd.target@, false)
        },
        _ => {
            &&& r matches EvalResult::UnmutedNoop { reason } && reason@ == not_a_clip(cmd.target@)
            &&& s1 == s0
        },
    }
}

/// `unmute <clip>`: unmutes the first clip of that name of the playing
/// scene; otherwise nothing changes.
pub fn eval_unmute(scene: &mut Option<ScenePlayer>, cmd: UnmuteCommand) -> (r: EvalResult)
    requires
        *old(scene) matches Some(s) ==> s.wf(),
    ensures
        unmute_outcome(*old(scene), *final(scene), cmd, r),
{
    let name = cmd.target;
    let taken = scene.take();
    match taken {
        Some(mut s) => {
            if s.has_clip(name.as_str()) {
                s.unmute_clip(name.as_str());
                *scene = Some(s);
                return EvalResult::Unmuted { target: name };
            }
            *scene = Some(s);
        },
        None => {},
    }
    let mut reason = owned("'");
    reason.append(name.as_str());
    reason.append("' is not a clip in active scene");
    EvalResult::UnmutedNoop { reason }
}

/// The whole playback paused or resumed: every clip of the playing scene,
/// if any, and for a pause its channels queued.
pub open spec fn whole_scene(
    old: Option<ScenePlayer>,
    new: Option<ScenePlayer>,
    q_old: Seq<(String, MidiChannel)>,
    q_new: Seq<(String, MidiChannel)>,
    paused: bool,
) -> bool {
    match old {
        Some(s) => {
            &&& new matches Some(s2) && all_paused(s, s2, paused)
            &&& pairs_view(q_new) == pairs_view(q_old) + if paused {
                scene_pairs(s)
            } else {
                Seq::empty()
            }
        },
        None => new is None && q_new == q_old,
    }
}

/// The target names the scene or session that plays.
pub open spec fn names_current(view: PlaybackView, name: Seq<char>) -> bool {
    view.current matches Some(c) && c@ == name
}

/// The playing scene has a clip of this name.
pub open spec fn scene_has(scene: Option<ScenePlayer>, name: Seq<char>) -> bool {
    scene matches Some(s) && has_name(s.players_spec(), name)
}

/// Pauses every clip of the scene and queues the scene's channels.
fn pause_whole(scene: &mut Option<ScenePlayer>, all_notes_off: &mut Vec<(String, MidiChannel)>)
    requires
        *old(scene) matches Some(s) ==> s.wf() && channels_known(s),
    ensures
        whole_scene(*old(scene), *final(scene), old(all_notes_off)@, final(all_notes_off)@, true),
{
    let taken = scene.take();
    match taken {
        Some(mut s) => {
            queue_scene_channels(&s, all_notes_off);
            s.pause_all_clips();
            *scene = Some(s);
        },
        None => {},
    }
}

/// Resumes every clip of the scene.
fn resume_whole(scene: &mut Option<ScenePlayer>)
    requires
        *old(scene) matches Some(s) ==> s.wf(),
    ensures
        forall|q: Seq<(String, MidiChannel)>| whole_scene(*old(scene), *final(scene), q, q, false),
{
    let taken = scene.take();
    match taken {
        Some(mut s) => {
            s.resume_all_clips();
            *scene = Some(s);
        },
        None => {},
    }
    assert forall|q: Seq<(String, MidiChannel)>| whole_scene(*old(scene), *scene, q, q, false) by {
        if *old(scene) is Some {
            assert(pairs_view(q) + Seq::<(Seq<char>, MidiChannel)>::empty() =~= pairs_view(q));
        }
    }
}

/// What `pause` does: see `eval_pause`.
pub open spec fn pause_outcome(
    s0: Option<ScenePlayer>,
    s1: Option<ScenePlayer>,
    q0: Seq<(String, MidiChannel)>,
    q1: Seq<(String, MidiChannel)>,
    view: PlaybackView,
    cmd: PauseCommand,
    r: (EvalResult, StateChange),
) -> bool {
    match cmd.target {
        None => if !view.playing {
            &&& r.0 matches EvalResult::PausedNoop { reason } && reason@ == "nothing is playing"@
            &&& r.1 is Keep
            &&& s1 == s0 && q1 == q0
        } else {
            &&& r.0 matches EvalResult::Paused { target } && target is None
            &&& r.1 matches StateChange::Pause(t) && t is None
            &&& whole_scene(s0, s1, q0, q1, true)
        },
        Some(name) => if names_current(view, name@) && view.playing {
            &&& r.0 matches EvalResult::Paused { target } && target matches Some(t) && t@ == name@
            &&& r.1 matches StateChange::Pause(t) && t matches Some(t2) && t2@ == name@
            &&& whole_scene(s0, s1, q0, q1, true)
        } else if scene_has(s0, name@) {
            &&& r.0 matches EvalResult::Paused { target } && target matches Some(t) && t@ == name@
            &&& r.1 is Keep
            &&& s0 matches Some(s) && s1 matches Some(s2) && first_paused(s, s2, name@, true)
                && pairs_view(q1) == pairs_view(q0) + clip_pairs(s, name@)
        } else {
            &&& r.0 matches EvalResult::PausedNoop { reason } && reason@ == nothing_to_pause(name@)
            &&& r.1 is Keep
            &&& s1 == s0 && q1 == q0
        },
    }
}

/// `pause` (the whole playback, or the named scene, session or clip): see
/// the module documentation. Returns the result and the change to make to
/// the playback state.
pub fn eval_pause(
    scene: &mut Option<ScenePlayer>,
    all_notes_off: &mut Vec<(String, MidiChannel)>,
    view: &PlaybackView,
    cmd: PauseCommand,
) -> (r: (EvalResult, StateChange))
    requires
        *old(scene) matches Some(s) ==> s.wf() && channels_known(s),
    ensures
        pause_outcome(*old(scene), *final(scene), old(all_notes_off)@, final(all_notes_off)@, *view, cmd, r),
{
    match cmd.target {
        None => {
            if !view.playing {
                return (EvalResult::PausedNoop { reason: owned("nothing is playing") }, StateChange::Keep);
            }
            pause_whole(scene, all_notes_off);
            (EvalResult::Paused { target: None }, StateChange::Pause(None))
        },
        Some(name) => {
            let is_current = match &view.current {
                Some(c) => same_text(c, name.as_str()),
                None => false,
            };
            if is_current && view.playing {
                pause_whole(scene, all_notes_off);
                let t2 = name.clone();
                return (EvalResult::Paused { target: Some(name) }, StateChange::Pause(Some(t2)));
            }
            let taken = scene.take();
            match taken {
                Some(mut s) => {
                    if s.has_clip(name.as_str()) {
                        queue_clip_channels(&s, name.as_str(), all_notes_off);
                        s.pause_clip(name.as_str());
                        *scene = Some(s);
                        return (EvalResult::Paused { target: Some(name) }, StateChange::Keep);
                    }
                    *scene = Some(s);
                },
                None => {},
            }
            let mut reason = owned("'");
            reason.append(name.as_str());
            reason.append("' is not the current scene/session nor a clip in active scene");
            (EvalResult::PausedNoop { reason }, StateChange::Keep)
        },
    }
}

/// What `resume` does: see `eval_resume`.
pub open spec fn resume_outcome(
    s0: Option<ScenePlayer>,
    s1: Option<ScenePlayer>,
    view: PlaybackView,
    cmd: ResumeCommand,
    r: (EvalResult, StateChange),
) -> bool {
    match cmd.target {
        None => if !view.paused {
            &&& r.0 matches EvalResult::ResumedNoop { reason } && reason@ == "not paused"@
            &&& r.1 is Keep
            &&& s1 == s0
        } else {
            &&& r.0 matches EvalResult::Resumed { target } && target is None
            &&& r.1 matches StateChange::Resume(t) && t is None
            &&& forall|q: Seq<(String, MidiChannel)>| whole_scene(s0, s1, q, q, false)
        },
        Some(name) => if view.paused && names_current(view, name@) {
            &&& r.0 matches EvalResult::Resumed { target } && target matches Some(t) && t@ == name@
            &&& r.1 matches StateChange::Resume(t) && t matches Some(t2) && t2@ == name@
            &&& forall|q: Seq<(String, MidiChannel)>| whole_scene(s0, s1, q, q, false)
        } else if scene_has(s0, name@) {
            &&& r.0 matches EvalResult::Resumed { target } && target matches Some(t) && t@ == name@
            &&& r.1 is Keep
            &&& s0 matches Some(s) && s1 matches Some(s2) && first_paused(s, s2, name@, false)
        } else {
            &&& r.0 matches EvalResult::ResumedNoop { reason } && reason@ == nothing_to_resume(name@)
            &&& r.1 is Keep
            &&& s1 == s0
        },
    }
}

/// `resume` (the whole playback, or the named scene, session or clip):
/// see the module documentation. Returns the result and the change to
/// make to the playback state.
pub fn eval_resume(scene: &mut Option<ScenePlayer>, view: &PlaybackView, cmd: ResumeCommand) -> (r: (EvalResult, StateChange))
    requires
        *old(scene) matches Some(s) ==> s.wf(),
    ensures
        resume_outcome(*old(scene), *final(scene), *view, cmd, r),
{
    match cmd.target {
        None => {
            if !view.paused {
                return (EvalResult::ResumedNoop { reason: owned("not paused") }, StateChange::Keep);
            }
            resume_whole(scene);
            (EvalResult::Resumed { target: None }, StateChange::Resume(None))
        },
        Some(name) => {
            if view.paused {
                let is_prev = match &view.current {
                    Some(c) => same_text(c, name.as_str()),
                    None => false,
                };
                if is_prev {
                    resume_whole(scene);
                    let t2 = name.clone();
                    return (EvalResult::Resumed { target: Some(name) }, StateChange::Resume(Some(t2)));
                }
            }
            let taken = scene.take();
            match taken {
                Some(mut s) => {
                    if s.has_clip(name.as_str()) {
                        s.resume_clip(name.as_str());
                        *scene = Some(s);
                        return (EvalResult::Resumed { target: Some(name) }, StateChange::Keep);
                    }
                    *scene = Some(s);
                },
                None => {},
            }
            let mut reason = owned("'");
            reason.append(name.as_str());
            reason.append("' is not a paused scene/session nor a clip in active scene");
            (EvalResult::ResumedNoop { reason }, StateChange::Keep)
        },
    }
}

/// Every player keeps its clip.
pub open spec fn clips_kept(s: ScenePlayer, s2: ScenePlayer) -> bool {
    &&& s2.players_spec().len() == s.players_spec().len()
    &&& forall|i: int|
        0 <= i < s.players_spec().len() ==> (#[trigger] s2.players_spec()[i]).1.clip_spec() == s.players_spec()[i].1.clip_spec()
            && s2.players_spec()[i].1.pending_spec() == s.players_spec()[i].1.pending_spec()
}

/// A scene whose players keep their clips carries channel messages only
/// when it did before.
proof fn lemma_clips_kept(s: ScenePlayer, s2: ScenePlayer)
    requires
        channels_known(s),
        clips_kept(s, s2),
    ensures
        channels_known(s2),
{
    assert forall|i: int| 0 <= i < s2.players_spec().len() implies player_voiced((#[trigger] s2.players_spec()[i]).1) by {
        assert(player_voiced(s.players_spec()[i].1));
    }
}

/// Changing the first player of a name keeps every clip.
proof fn lemma_first_changed(s: ScenePlayer, s2: ScenePlayer, name: Seq<char>)
    requires
        has_name(s.players_spec(), name),
        forall|i: int|
            #[trigger] first_named(s.players_spec(), name, i) ==> only_player_changed(s.players_spec(), s2.players_spec(), i)
                && s2.players_spec()[i].1.clip_spec() == s.players_spec()[i].1.clip_spec()
                && s2.players_spec()[i].1.pending_spec() == s.players_spec()[i].1.pending_spec(),
    ensures
        clips_kept(s, s2),
{
    lemma_first_named(s, name);
    let f = choose|f: int| first_named(s.players_spec(), name, f);
    assert forall|i: int| 0 <= i < s.players_spec().len() implies (#[trigger] s2.players_spec()[i]).1.clip_spec()
        == s.players_spec()[i].1.clip_spec() && s2.players_spec()[i].1.pending_spec() == s.players_spec()[i].1.pending_spec() by {
        if i != f {
            assert(s2.players_spec()[i] == s.players_spec()[i]);
        }
    }
}

/// `mute` keeps a live scene live.
pub(crate) proof fn lemma_mute_live(
    s0: Option<ScenePlayer>,
    s1: Option<ScenePlayer>,
    q0: Seq<(String, MidiChannel)>,
    q1: Seq<(String, MidiChannel)>,
    cmd: MuteCommand,
    r: EvalResult,
)
    requires
        live_scene(s0),
        mute_outcome(s0, s1, q0, q1, cmd, r),
    ensures
        live_scene(s1),
{
    if let (Some(s), Some(s2)) = (s0, s1) {
        if has_name(s.players_spec(), cmd.target@) {
            lemma_first_changed(s, s2, cmd.target@);
            lemma_clips_kept(s, s2);
        }
    }
}

/// `unmute` keeps a live scene live.
pub(crate) proof fn lemma_unmute_live(s0: Option<ScenePlayer>, s1: Option<ScenePlayer>, cmd: UnmuteCommand, r: EvalResult)
    requires
        live_scene(s0),
        unmute_outcome(s0, s1, cmd, r),
    ensures
        live_scene(s1),
{
    if let (Some(s), Some(s2)) = (s0, s1) {
        if has_name(s.players_spec(), cmd.target@) {
            lemma_first_changed(s, s2, cmd.target@);
            lemma_clips_kept(s, s2);
        }
    }
}

/// Pausing or resuming the whole scene keeps a live scene live.
proof fn lemma_whole_live(
    s0: Option<ScenePlayer>,
    s1: Option<ScenePlayer>,
    q0: Seq<(String, MidiChannel)>,
    q1: Seq<(String, MidiChannel)>,
    paused: bool,
)
    requires
        live_scene(s0),
        whole_scene(s0, s1, q0, q1, paused),
    ensures
        live_scene(s1),
{
    if let (Some(s), Some(s2)) = (s0, s1) {
        assert(clips_kept(s, s2));
        lemma_clips_kept(s, s2);
    }
}

/// `pause` keeps a live scene live.
pub(crate) proof fn lemma_pause_live(
    s0: Option<ScenePlayer>,
    s1: Option<ScenePlayer>,
    q0: Seq<(String, MidiChannel)>,
    q1: Seq<(String, MidiChannel)>,
    view: PlaybackView,
    cmd: PauseCommand,
    r: (EvalResult, StateChange),
)
    requires
        live_scene(s0),
        pause_outcome(s0, s1, q0, q1, view, cmd, r),
    ensures
        live_scene(s1),
{
    match cmd.target {
        None => if view.playing {
            lemma_whole_live(s0, s1, q0, q1, true);
        },
        Some(name) => if names_current(view, name@) && view.playing {
            lemma_whole_live(s0, s1, q0, q1, true);
        } else if scene_has(s0, name@) {
            let s = s0->Some_0;
            let s2 = s1->Some_0;
            lemma_first_changed(s, s2, name@);
            lemma_clips_kept(s, s2);
        },
    }
}

/// `resume` keeps a live scene live.
pub(crate) proof fn lemma_resume_live(
    s0: Option<ScenePlayer>,
    s1: Option<ScenePlayer>,
    view: PlaybackView,
    cmd: ResumeCommand,
    r: (EvalResult, StateChange),
)
    requires
        live_scene(s0),
        resume_outcome(s0, s1, view, cmd, r),
    ensures
        live_scene(s1),
{
    let q = Seq::<(String, MidiChannel)>::empty();
    match cmd.target {
        None => if view.paused {
            lemma_whole_live(s0, s1, q, q, false);
        },
        Some(name) => if view.paused && names_current(view, name@) {
            lemma_whole_live(s0, s1, q, q, false);
        } else if scene_has(s0, name@) {
            let s = s0->Some_0;
            let s2 = s1->Some_0;
            lemma_first_changed(s, s2, name@);
            lemma_clips_kept(s, s2);
        },
    }
}

} // verus!
