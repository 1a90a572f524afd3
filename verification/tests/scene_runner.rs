//! Scene resolution: probabilities, weighted shuffles, tempo entries and
//! initially muted clips.

use lcvgc::ast::{SceneDef, SceneEntry, ShuffleCandidate, Tempo};
use lcvgc::scene_runner::{initial_muted_clips, resolve_scene};
use rand::rngs::StdRng;
use rand::SeedableRng;

fn candidate(clip: &str, weight: u32) -> ShuffleCandidate {
    ShuffleCandidate {
        clip: clip.to_string(),
        weight,
    }
}

fn scene(entries: Vec<SceneEntry>) -> SceneDef {
    SceneDef {
        name: "test".to_string(),
        entries,
    }
}

fn rng() -> StdRng {
    StdRng::seed_from_u64(42)
}

#[test]
fn empty_scene_returns_empty_clips() {
    let s = scene(vec![]);
    let result = resolve_scene(&s, &mut rng());
    assert!(result.clips.is_empty());
    assert!(result.tempo_change.is_none());
}

#[test]
fn single_clip_no_probability_always_selected() {
    let s = scene(vec![SceneEntry::Clip {
        candidates: vec![candidate("bass", 1)],
        probability: None,
        muted: false,
    }]);
    let mut r = rng();
    for _ in 0..100 {
        let result = resolve_scene(&s, &mut r);
        assert_eq!(result.clips, vec!["bass"]);
    }
}

#[test]
fn probability_zero_never_selected() {
    let s = scene(vec![SceneEntry::Clip {
        candidates: vec![candidate("bass", 1)],
        probability: Some(0),
        muted: false,
    }]);
    let mut r = rng();
    for _ in 0..100 {
        let result = resolve_scene(&s, &mut r);
        assert!(result.clips.is_empty());
    }
}

#[test]
fn probability_nine_almost_always_selected() {
    let s = scene(vec![SceneEntry::Clip {
        candidates: vec![candidate("bass", 1)],
        probability: Some(9),
        muted: false,
    }]);
    let mut r = rng();
    let count = (0..1000)
        .filter(|_| !resolve_scene(&s, &mut r).clips.is_empty())
        .count();
    assert!(count > 850 && count < 950, "count={count}");
}

#[test]
fn shuffle_candidates_one_is_picked() {
    let s = scene(vec![SceneEntry::Clip {
        candidates: vec![candidate("a", 1), candidate("b", 1)],
        probability: None,
        muted: false,
    }]);
    let mut r = rng();
    let result = resolve_scene(&s, &mut r);
    assert!(result.clips.len() == 1);
    assert!(result.clips[0] == "a" || result.clips[0] == "b");
}

#[test]
fn tempo_entry_sets_tempo_change() {
    let s = scene(vec![SceneEntry::Tempo(Tempo::Absolute(140))]);
    let result = resolve_scene(&s, &mut rng());
    assert_eq!(result.tempo_change, Some(Tempo::Absolute(140)));
    assert!(result.clips.is_empty());
}

#[test]
fn mixed_clips_and_tempo() {
    let s = scene(vec![
        SceneEntry::Clip {
            candidates: vec![candidate("bass", 1)],
            probability: None,
            muted: false,
        },
        SceneEntry::Tempo(Tempo::Relative(10)),
        SceneEntry::Clip {
            candidates: vec![candidate("lead", 1)],
            probability: None,
            muted: false,
        },
    ]);
    let result = resolve_scene(&s, &mut rng());
    assert_eq!(result.clips, vec!["bass", "lead"]);
    assert_eq!(result.tempo_change, Some(Tempo::Relative(10)));
}

#[test]
fn multiple_clips_independent() {
    let s = scene(vec![
        SceneEntry::Clip {
            candidates: vec![candidate("a", 1)],
            probability: None,
            muted: false,
        },
        SceneEntry::Clip {
            candidates: vec![candidate("b", 1)],
            probability: None,
            muted: false,
        },
        SceneEntry::Clip {
            candidates: vec![candidate("c", 1)],
            probability: None,
            muted: false,
        },
    ]);
    let result = resolve_scene(&s, &mut rng());
    assert_eq!(result.clips, vec!["a", "b", "c"]);
}

#[test]
fn weighted_shuffle_higher_weight_picked_more() {
    let s = scene(vec![SceneEntry::Clip {
        candidates: vec![candidate("heavy", 9), candidate("light", 1)],
        probability: None,
        muted: false,
    }]);
    let mut r = rng();
    let heavy_count = (0..1000)
        .filter(|_| resolve_scene(&s, &mut r).clips == vec!["heavy"])
        .count();
    assert!(
        heavy_count > 850 && heavy_count < 950,
        "heavy_count={heavy_count}"
    );
}

#[test]
fn empty_candidates_no_clip_added() {
    let s = scene(vec![SceneEntry::Clip {
        candidates: vec![],
        probability: None,
        muted: false,
    }]);
    let result = resolve_scene(&s, &mut rng());
    assert!(result.clips.is_empty());
}

#[test]
fn multiple_tempo_entries_last_wins() {
    let s = scene(vec![
        SceneEntry::Tempo(Tempo::Absolute(120)),
        SceneEntry::Tempo(Tempo::Absolute(140)),
    ]);
    let result = resolve_scene(&s, &mut rng());
    assert_eq!(result.tempo_change, Some(Tempo::Absolute(140)));
}

#[test]
fn relative_tempo_preserved() {
    let s = scene(vec![SceneEntry::Tempo(Tempo::Relative(-10))]);
    let result = resolve_scene(&s, &mut rng());
    assert_eq!(result.tempo_change, Some(Tempo::Relative(-10)));
}

// tests for initial_muted_clips

/// Empty set when no entry is marked muted.
#[test]
fn initial_muted_clips_empty_when_no_muted_entries() {
    let s = scene(vec![
        SceneEntry::Clip {
            candidates: vec![candidate("bass", 1)],
            probability: None,
            muted: false,
        },
        SceneEntry::Clip {
            candidates: vec![candidate("drums", 1)],
            probability: Some(7),
            muted: false,
        },
    ]);
    assert!(initial_muted_clips(&s).is_empty());
}

/// Clip names from muted entries are collected.
#[test]
fn initial_muted_clips_collects_muted_entries() {
    let s = scene(vec![
        SceneEntry::Clip {
            candidates: vec![candidate("bass", 1)],
            probability: None,
            muted: false,
        },
        SceneEntry::Clip {
            candidates: vec![candidate("drums", 1)],
            probability: None,
            muted: true,
        },
    ]);
    let muted = initial_muted_clips(&s);
    assert_eq!(muted.len(), 1);
    assert!(muted.contains("drums"));
}

/// All shuffle candidates are included when the muted prefix is on a shuffle entry.
#[test]
fn initial_muted_clips_includes_all_shuffle_candidates() {
    let s = scene(vec![SceneEntry::Clip {
        candidates: vec![candidate("drums_a", 1), candidate("drums_funk", 1)],
        probability: None,
        muted: true,
    }]);
    let muted = initial_muted_clips(&s);
    assert_eq!(muted.len(), 2);
    assert!(muted.contains("drums_a"));
    assert!(muted.contains("drums_funk"));
}

/// Tempo entries do not affect the muted set.
#[test]
fn initial_muted_clips_ignores_tempo() {
    let s = scene(vec![
        SceneEntry::Tempo(Tempo::Absolute(120)),
        SceneEntry::Clip {
            candidates: vec![candidate("bass", 1)],
            probability: None,
            muted: true,
        },
    ]);
    let muted = initial_muted_clips(&s);
    assert_eq!(muted.len(), 1);
    assert!(muted.contains("bass"));
}

