//! What comes when a scene loop ends: a scene's count of loops, a
//! session's entries and rounds, and an edit's move to the next entry.

use lcvgc::ast::{RepeatSpec, SessionEntry};
use lcvgc::run::{check_next_entry, decide_loop_end, force_next_entry, new_progress};
use lcvgc::transitions::NextAction;

fn entry(scene: &str, repeat: RepeatSpec) -> SessionEntry {
    SessionEntry { scene: scene.into(), repeat }
}

fn next_scene(a: &NextAction) -> Option<&str> {
    match a {
        NextAction::NextSessionEntry { scene_name } => Some(scene_name.as_str()),
        _ => None,
    }
}

#[test]
fn scene_played_twice_plays_on_once_then_completes() {
    let none: Vec<SessionEntry> = vec![];
    let (a1, p1) = decide_loop_end(false, RepeatSpec::Count(2), new_progress(), &none);
    assert!(matches!(a1, NextAction::ContinueScene));
    let (a2, p2) = decide_loop_end(false, RepeatSpec::Count(2), p1, &none);
    assert!(matches!(a2, NextAction::SceneComplete));
    assert_eq!(p2, new_progress());
}

#[test]
fn scene_played_once_completes_and_looping_scene_plays_on() {
    let none: Vec<SessionEntry> = vec![];
    let (a, _) = decide_loop_end(false, RepeatSpec::Once, new_progress(), &none);
    assert!(matches!(a, NextAction::SceneComplete));
    let mut p = new_progress();
    for _ in 0..5 {
        let (a, q) = decide_loop_end(false, RepeatSpec::Loop, p, &none);
        assert!(matches!(a, NextAction::ContinueScene));
        p = q;
    }
    assert_eq!(p.done, 5);
}

#[test]
fn session_plays_each_entry_its_count_then_completes() {
    let entries = vec![entry("s1", RepeatSpec::Count(2)), entry("s2", RepeatSpec::Once)];
    let mut p = new_progress();
    let mut seen = Vec::new();
    loop {
        let (a, q) = decide_loop_end(true, RepeatSpec::Once, p, &entries);
        p = q;
        match a {
            NextAction::ContinueScene => seen.push("continue".to_string()),
            NextAction::NextSessionEntry { scene_name } => seen.push(scene_name),
            NextAction::SessionComplete => {
                seen.push("done".to_string());
                break;
            },
            NextAction::SceneComplete => panic!("a session does not end as a scene"),
        }
    }
    assert_eq!(seen, vec!["s1", "continue", "s2", "done"]);
}

#[test]
fn looping_session_starts_over_after_its_last_entry() {
    let entries = vec![entry("s1", RepeatSpec::Once), entry("s2", RepeatSpec::Once)];
    let (a, p) = decide_loop_end(true, RepeatSpec::Loop, new_progress(), &entries);
    assert_eq!(next_scene(&a), Some("s1"));
    let (a, p) = decide_loop_end(true, RepeatSpec::Loop, p, &entries);
    assert_eq!(next_scene(&a), Some("s2"));
    let (a, p) = decide_loop_end(true, RepeatSpec::Loop, p, &entries);
    assert_eq!(next_scene(&a), Some("s1"));
    assert_eq!(p.rounds, 1);
}

#[test]
fn edit_moves_a_session_to_its_next_entry_when_it_has_one() {
    let entries = vec![entry("s1", RepeatSpec::Loop), entry("s2", RepeatSpec::Once)];
    let (_, p) = decide_loop_end(true, RepeatSpec::Once, new_progress(), &entries);
    assert!(check_next_entry(RepeatSpec::Once, p, &entries));
    let (a, p) = force_next_entry(p, &entries);
    assert_eq!(next_scene(&a), Some("s2"));
    assert!(!check_next_entry(RepeatSpec::Once, p, &entries));
    assert!(check_next_entry(RepeatSpec::Loop, p, &entries));
    let single = vec![entry("s1", RepeatSpec::Loop)];
    assert!(!check_next_entry(RepeatSpec::Loop, new_progress(), &single));
}
