//! The progress of what plays, and what comes when a scene loop ends: a
//! scene plays its number of loops (`once`, `n` times, or for ever); a
//! session plays its entries in order, each its number of loops, and the
//! whole session its number of rounds. A session starts by setting up its
//! first entry when the first loop ends.
//!
//! An edit of a playing session moves it on to its next entry at once,
//! when there is one: a later entry, or the first again in a session that
//! plays another round.

use vstd::prelude::*;

use crate::ast::{RepeatSpec, SessionEntry};
use crate::text::owned;
use crate::transitions::NextAction;

verus! {

/// How far playback has come: loops of the scene played, and for a
/// session the entry that plays, its loops played and the rounds played.
#[derive(Clone, Copy, Debug, PartialEq, Eq, Structural)]
pub struct RunProgress {
    pub done: u32,
    pub pos: Option<usize>,
    pub entry_done: u32,
    pub rounds: u32,
}

/// Nothing played yet.
pub open spec fn fresh_progress() -> RunProgress {
    RunProgress { done: 0, pos: None, entry_done: 0, rounds: 0 }
}

/// No progress yet.
pub fn new_progress() -> (r: RunProgress)
    ensures
        r == fresh_progress(),
{
    RunProgress { done: 0, pos: None, entry_done: 0, rounds: 0 }
}

/// One more, held at `u32::MAX`.
pub open spec fn bump(x: u32) -> u32 {
    if x < u32::MAX {
        (x + 1) as u32
    } else {
        x
    }
}

fn bump_exec(x: u32) -> (r: u32)
    ensures
        r == bump(x),
{
    if x < u32::MAX {
        x + 1
    } else {
        x
    }
}

/// After `played` plays, whether `repeat` asks for another.
pub open spec fn again(repeat: RepeatSpec, played: u32) -> bool {
    match repeat {
        RepeatSpec::Loop => true,
        RepeatSpec::Once => false,
        RepeatSpec::Count(n) => played < n,
    }
}

fn again_exec(repeat: RepeatSpec, played: u32) -> (r: bool)
    ensures
        r == again(repeat, played),
{
    match repeat {
        RepeatSpec::Loop => true,
        RepeatSpec::Once => false,
        RepeatSpec::Count(n) => played < n,
    }
}

/// What comes when a loop ends.
pub enum Decision {
    /// The same scene plays again.
    Continue,
    /// The scene has played all its loops.
    SceneDone,
    /// The session has played all its entries and rounds.
    SessionDone,
    /// The session's entry at this position plays.
    Entry(int),
}

/// The decision at the end of a loop, and the progress after it, for a
/// scene (`session` false) or a session with the entries `entries`.
pub open spec fn loop_end(session: bool, repeat: RepeatSpec, p: RunProgress, entries: Seq<SessionEntry>) -> (Decision, RunProgress) {
    if !session {
        let d = bump(p.done);
        if again(repeat, d) {
            (Decision::Continue, RunProgress { done: d, ..p })
        } else {
            (Decision::SceneDone, fresh_progress())
        }
    } else {
        match p.pos {
            None => if entries.len() > 0 {
                (Decision::Entry(0), RunProgress { pos: Some(0usize), entry_done: 0, ..p })
            } else {
                (Decision::SessionDone, fresh_progress())
            },
            Some(i) => {
                let d = bump(p.entry_done);
                if i < entries.len() && again(entries[i as int].repeat, d) {
                    (Decision::Continue, RunProgress { entry_done: d, ..p })
                } else if i + 1 < entries.len() {
                    (Decision::Entry(i + 1), RunProgress { pos: Some((i + 1) as usize), entry_done: 0, ..p })
                } else {
                    let r = bump(p.rounds);
                    if entries.len() > 0 && again(repeat, r) {
                        (Decision::Entry(0), RunProgress { pos: Some(0usize), entry_done: 0, rounds: r, ..p })
                    } else {
                        (Decision::SessionDone, fresh_progress())
                    }
                }
            },
        }
    }
}

/// `a` is the action for the decision `d`.
pub open spec fn acts(d: Decision, entries: Seq<SessionEntry>, a: NextAction) -> bool {
    match d {
        Decision::Continue => a is ContinueScene,
        Decision::SceneDone => a is SceneComplete,
        Decision::SessionDone => a is SessionComplete,
        Decision::Entry(i) => a matches NextAction::NextSessionEntry { scene_name } && scene_name@ == entries[i].scene@,
    }
}

/// The action for the entry at `i`.
fn entry_action(entries: &Vec<SessionEntry>, i: usize) -> (r: NextAction)
    requires
        i < entries@.len(),
    ensures
        acts(Decision::Entry(i as int), entries@, r),
{
    NextAction::NextSessionEntry { scene_name: owned(entries[i].scene.as_str()) }
}

/// Decides what comes at the end of a loop: see `loop_end`.
pub fn decide_loop_end(session: bool, repeat: RepeatSpec, p: RunProgress, entries: &Vec<SessionEntry>) -> (r: (
    NextAction,
    RunProgress,
))
    ensures
        acts(loop_end(session, repeat, p, entries@).0, entries@, r.0),
        r.1 == loop_end(session, repeat, p, entries@).1,
{
    if !session {
        let d = bump_exec(p.done);
        if again_exec(repeat, d) {
            (NextAction::ContinueScene, RunProgress { done: d, ..p })
        } else {
            (NextAction::SceneComplete, new_progress())
        }
    } else {
        match p.pos {
            None => if entries.len() > 0 {
                (entry_action(entries, 0), RunProgress { pos: Some(0), entry_done: 0, ..p })
            } else {
                (NextAction::SessionComplete, new_progress())
            },
            Some(i) => {
                let d = bump_exec(p.entry_done);
                if i < entries.len() && again_exec(entries[i].repeat, d) {
                    (NextAction::ContinueScene, RunProgress { entry_done: d, ..p })
                } else if i < entries.len() && i + 1 < entries.len() {
                    (entry_action(entries, i + 1), RunProgress { pos: Some(i + 1), entry_done: 0, ..p })
                } else {
                    let r = bump_exec(p.rounds);
                    if entries.len() > 0 && again_exec(repeat, r) {
                        (entry_action(entries, 0), RunProgress { pos: Some(0), entry_done: 0, rounds: r, ..p })
                    } else {
                        (NextAction::SessionComplete, new_progress())
                    }
                }
            },
        }
    }
}

/// Whether an edit can move the session on: it has another entry after
/// the one that plays, or it plays another round and has more than one
/// entry.
pub open spec fn has_next_entry(repeat: RepeatSpec, p: RunProgress, entries: Seq<SessionEntry>) -> bool {
    let cur = match p.pos {
        Some(i) => i as int,
        None => 0,
    };
    entries.len() > 1 && (cur + 1 < entries.len() || again(repeat, bump(p.rounds)))
}

/// The entry an edit moves the session on to, and the progress after it.
pub open spec fn forced_next(p: RunProgress, entries: Seq<SessionEntry>) -> (int, RunProgress) {
    let cur = match p.pos {
        Some(i) => i as int,
        None => 0,
    };
    if cur + 1 < entries.len() {
        (cur + 1, RunProgress { pos: Some((cur + 1) as usize), entry_done: 0, ..p })
    } else {
        (0, RunProgress { pos: Some(0usize), entry_done: 0, rounds: bump(p.rounds), ..p })
    }
}

/// Whether an edit can move the session on: see `has_next_entry`.
pub fn check_next_entry(repeat: RepeatSpec, p: RunProgress, entries: &Vec<SessionEntry>) -> (r: bool)
    ensures
        r == has_next_entry(repeat, p, entries@),
{
    let cur: usize = match p.pos {
        Some(i) => i,
        None => 0,
    };
    entries.len() > 1 && ((cur < entries.len() && cur + 1 < entries.len()) || again_exec(repeat, bump_exec(p.rounds)))
}

/// Moves the session on after an edit: see `forced_next`.
pub fn force_next_entry(p: RunProgress, entries: &Vec<SessionEntry>) -> (r: (NextAction, RunProgress))
    requires
        entries@.len() > 0,
    ensures
        acts(Decision::Entry(forced_next(p, entries@).0), entries@, r.0),
        r.1 == forced_next(p, entries@).1,
{
    let cur: usize = match p.pos {
        Some(i) => i,
        None => 0,
    };
    if cur < entries.len() && cur + 1 < entries.len() {
        (entry_action(entries, cur + 1), RunProgress { pos: Some(cur + 1), entry_done: 0, ..p })
    } else {
        (entry_action(entries, 0), RunProgress { pos: Some(0), entry_done: 0, rounds: bump_exec(p.rounds), ..p })
    }
}


/// The progress of a scene after `j` ends of its loop that let it go on.
pub open spec fn scene_after(repeat: RepeatSpec, j: nat) -> RunProgress
    decreases j,
{
    if j == 0 {
        fresh_progress()
    } else {
        loop_end(false, repeat, scene_after(repeat, (j - 1) as nat), Seq::empty()).1
    }
}

/// What comes at the `j + 1`-th end of a scene's loop.
pub open spec fn scene_decision(repeat: RepeatSpec, j: nat) -> Decision {
    loop_end(false, repeat, scene_after(repeat, j), Seq::empty()).0
}

/// A scene played `n` times plays on at each of the first `n - 1` ends of
/// its loop and is done at the `n`-th.
pub proof fn law_scene_plays_its_count(n: u32, j: nat)
    requires
        1 <= n,
        j < n,
    ensures
        if j + 1 < n {
            scene_decision(RepeatSpec::Count(n), j) is Continue
        } else {
            scene_decision(RepeatSpec::Count(n), j) is SceneDone
        },
{
    lemma_scene_after(RepeatSpec::Count(n), j);
}

/// A scene played once is done at the first end of its loop; one played
/// in a loop plays on at every end.
pub proof fn law_once_and_loop(j: nat)
    ensures
        scene_decision(RepeatSpec::Once, 0) is SceneDone,
        scene_decision(RepeatSpec::Loop, j) is Continue,
{
}

/// While a counted scene plays on, its progress counts the ends of its
/// loop.
proof fn lemma_scene_after(repeat: RepeatSpec, j: nat)
    ensures
        (repeat matches RepeatSpec::Count(n) && j < n ==> scene_after(repeat, j) == (RunProgress {
            done: j as u32,
            ..fresh_progress()
        })),
    decreases j,
{
    if j > 0 {
        lemma_scene_after(repeat, (j - 1) as nat);
    }
}

} // verus!
