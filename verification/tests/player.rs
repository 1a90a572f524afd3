//! Clip and scene players: tick lookup, looping, clip swaps, scene
//! length, mute and pause, and the per-loop probability and random-choice
//! masks.

use lcvgc::compiler::{CompiledClip, DrumProbabilityGroup, MidiEvent, RandomChoiceGroup};
use lcvgc::domain::MidiChannel;
use lcvgc::midi::MidiMessage;
use lcvgc::player::{build_events_by_tick, ClipPlayer, ScenePlayer};
use rand::rngs::StdRng;
use rand::SeedableRng;

fn make_clip(events: Vec<(u64, MidiMessage)>, total_ticks: u64) -> CompiledClip {
    CompiledClip {
        events: events
            .into_iter()
            .map(|(tick, message)| MidiEvent::new(tick, message, ""))
            .collect(),
        total_ticks,
        warnings: vec![],
        drum_mask_groups: vec![],
        random_choice_groups: vec![],
    }
}

fn note_on(note: u8) -> MidiMessage {
    MidiMessage::NoteOn {
        channel: MidiChannel::from_zero_based(0).unwrap(),
        note,
        velocity: 100,
    }
}

#[allow(dead_code)]
fn note_off(note: u8) -> MidiMessage {
    MidiMessage::NoteOff {
        channel: MidiChannel::from_zero_based(0).unwrap(),
        note,
        velocity: 0,
    }
}

#[test]
fn clip_player_new_initializes_correctly() {
    let clip = make_clip(vec![], 480);
    let player = ClipPlayer::new(clip, true);
    assert_eq!(player.current_tick(), 0);
    assert!(!player.is_done());
}

#[test]
fn events_at_returns_matching_events() {
    let clip = make_clip(
        vec![(0, note_on(60)), (0, note_on(64)), (240, note_on(67))],
        480,
    );
    let player = ClipPlayer::new(clip, false);
    let events = player.events_at(0);
    assert_eq!(events.len(), 2);
}

#[test]
fn events_at_no_match_returns_empty() {
    let clip = make_clip(vec![(0, note_on(60))], 480);
    let player = ClipPlayer::new(clip, false);
    let events = player.events_at(100);
    assert!(events.is_empty());
}

#[test]
fn advance_increments_tick() {
    let clip = make_clip(vec![], 480);
    let mut player = ClipPlayer::new(clip, false);
    player.advance(10);
    assert_eq!(player.current_tick(), 10);
    player.advance(5);
    assert_eq!(player.current_tick(), 15);
}

#[test]
fn is_done_when_not_looping_past_total() {
    let clip = make_clip(vec![], 480);
    let mut player = ClipPlayer::new(clip, false);
    assert!(!player.is_done());
    player.advance(480);
    assert!(player.is_done());
}

#[test]
fn is_done_false_when_looping() {
    let clip = make_clip(vec![], 480);
    let mut player = ClipPlayer::new(clip, true);
    player.advance(9999);
    assert!(!player.is_done());
}

#[test]
fn reset_sets_tick_to_zero() {
    let clip = make_clip(vec![], 480);
    let mut player = ClipPlayer::new(clip, false);
    player.advance(100);
    player.reset();
    assert_eq!(player.current_tick(), 0);
}

#[test]
fn looping_wraps_via_modulo() {
    let clip = make_clip(vec![(0, note_on(60)), (240, note_on(64))], 480);
    let player = ClipPlayer::new(clip, true);
    let events = player.events_at(480);
    assert_eq!(events.len(), 1);
    assert_eq!(events[0].tick, 0);
    let events = player.events_at(720);
    assert_eq!(events.len(), 1);
    assert_eq!(events[0].tick, 240);
}

#[test]
fn non_looping_past_total_returns_empty() {
    let clip = make_clip(vec![(0, note_on(60))], 480);
    let player = ClipPlayer::new(clip, false);
    let events = player.events_at(480);
    assert!(events.is_empty());
}

#[test]
fn scene_player_new_empty() {
    let scene = ScenePlayer::new();
    assert_eq!(scene.clip_count(), 0);
}

#[test]
fn scene_player_add_clip() {
    let mut scene = ScenePlayer::new();
    scene.add_clip("kick".to_string(), make_clip(vec![], 480), true);
    scene.add_clip("snare".to_string(), make_clip(vec![], 960), true);
    assert_eq!(scene.clip_count(), 2);
}

#[test]
fn scene_player_events_at_aggregates() {
    let mut scene = ScenePlayer::new();
    scene.add_clip(
        "a".to_string(),
        make_clip(vec![(0, note_on(60))], 480),
        false,
    );
    scene.add_clip(
        "b".to_string(),
        make_clip(vec![(0, note_on(72))], 480),
        false,
    );
    let events = scene.events_at(0);
    assert_eq!(events.len(), 2);
}

#[test]
fn scene_player_all_done() {
    let mut scene = ScenePlayer::new();
    scene.add_clip("a".to_string(), make_clip(vec![], 480), false);
    scene.add_clip("b".to_string(), make_clip(vec![], 480), true);
    assert!(!scene.all_done());
    scene.advance_all(480);
    // "a" is done, "b" is looping (ignored) → all_done = true
    assert!(scene.all_done());
}

#[test]
fn polyrhythm_different_total_ticks() {
    let mut scene = ScenePlayer::new();
    scene.add_clip(
        "three".to_string(),
        make_clip(vec![(0, note_on(60))], 360),
        true,
    );
    scene.add_clip(
        "four".to_string(),
        make_clip(vec![(0, note_on(72))], 480),
        true,
    );
    assert_eq!(scene.events_at(0).len(), 2);
    assert_eq!(scene.events_at(360).len(), 1);
    assert_eq!(scene.events_at(480).len(), 1);
    assert_eq!(scene.events_at(720).len(), 1);
    assert_eq!(scene.events_at(1440).len(), 2);
}

#[test]
fn scene_player_reset_all() {
    let mut scene = ScenePlayer::new();
    scene.add_clip("a".to_string(), make_clip(vec![], 480), false);
    scene.advance_all(100);
    scene.reset_all();
    assert!(!scene.all_done());
}


/// Verify that after replace_clip, the new clip takes effect at the next loop boundary
#[test]
fn clip_player_replace_at_loop_boundary() {
    let clip_a = make_clip(vec![(0, note_on(60))], 480);
    let clip_b = make_clip(vec![(0, note_on(72))], 480);
    let mut player = ClipPlayer::new(clip_a, true);

    player.advance(240);
    player.replace_clip(clip_b);
    assert!(player.has_pending());

    let events = player.events_at(240);
    assert!(events.is_empty()); // tick 240にイベントなし

    player.advance(240); // tick = 480 → ループ頭到達

    assert!(!player.has_pending());
    let events = player.events_at(player.current_tick());
    assert_eq!(events.len(), 1);
    assert!(matches!(
        events[0].message,
        MidiMessage::NoteOn { note: 72, .. }
    ));
}

#[test]
fn build_events_by_tick_preserves_insertion_order_for_same_tick() {
    let clip = make_clip(
        vec![(0, note_on(60)), (0, note_on(64)), (0, note_on(67))],
        480,
    );
    let index = build_events_by_tick(&clip);
    let at_zero = index.get(&0).expect("tick 0 should exist");
    assert_eq!(at_zero, &vec![0, 1, 2]);
    let player = ClipPlayer::new(clip, false);
    let events = player.events_at(0);
    let notes: Vec<u8> = events
        .iter()
        .filter_map(|e| match e.message {
            MidiMessage::NoteOn { note, .. } => Some(note),
            _ => None,
        })
        .collect();
    assert_eq!(notes, vec![60, 64, 67]);
}

#[test]
fn events_at_empty_tick_returns_empty() {
    let clip = make_clip(vec![(0, note_on(60)), (240, note_on(64))], 480);
    let player = ClipPlayer::new(clip, true);
    assert!(player.events_at(1).is_empty());
    assert!(player.events_at(239).is_empty());
    assert!(player.events_at(479).is_empty());
}

#[test]
fn replace_clip_rebuilds_events_index() {
    let clip_a = make_clip(vec![(0, note_on(60))], 480);
    let clip_b = make_clip(vec![(120, note_on(72))], 480);
    let mut player = ClipPlayer::new(clip_a, true);

    player.replace_clip(clip_b);
    player.advance(480); // ループ境界越え → swap 発火

    assert!(player.events_at(player.current_tick()).is_empty());

    player.advance(120);
    let events = player.events_at(player.current_tick());
    assert_eq!(events.len(), 1);
    assert!(matches!(
        events[0].message,
        MidiMessage::NoteOn { note: 72, .. }
    ));
}

/// Verify that without replace_clip, behavior is unchanged
#[test]
fn clip_player_no_replace_normal_loop() {
    let clip = make_clip(vec![(0, note_on(60))], 480);
    let mut player = ClipPlayer::new(clip, true);

    assert!(!player.has_pending());
    player.advance(480);
    let events = player.events_at(480);
    assert_eq!(events.len(), 1);
    assert!(matches!(
        events[0].message,
        MidiMessage::NoteOn { note: 60, .. }
    ));
}


#[test]
fn scene_tick_length_empty_is_zero() {
    let scene = ScenePlayer::new();
    assert_eq!(scene.scene_tick_length(), 0);
}

#[test]
fn scene_tick_length_single_clip() {
    let mut scene = ScenePlayer::new();
    scene.add_clip("a".to_string(), make_clip(vec![], 480), true);
    assert_eq!(scene.scene_tick_length(), 480);
}

#[test]
fn scene_tick_length_polyrhythm_lcm() {
    let mut scene = ScenePlayer::new();
    scene.add_clip("three".to_string(), make_clip(vec![], 360), true);
    scene.add_clip("four".to_string(), make_clip(vec![], 480), true);
    assert_eq!(scene.scene_tick_length(), 1440);
}


#[test]
fn clip_player_not_muted_by_default() {
    let clip = make_clip(vec![(0, note_on(60))], 480);
    let player = ClipPlayer::new(clip, true);
    assert!(!player.is_muted());
}

#[test]
fn clip_player_mute_suppresses_events() {
    let clip = make_clip(vec![(0, note_on(60)), (240, note_on(64))], 480);
    let mut player = ClipPlayer::new(clip, true);

    assert_eq!(player.events_at(0).len(), 1);

    player.mute();
    assert!(player.is_muted());
    assert!(player.events_at(0).is_empty());
    assert!(player.events_at(240).is_empty());

    player.unmute();
    assert!(!player.is_muted());
    assert_eq!(player.events_at(0).len(), 1);
    assert_eq!(player.events_at(240).len(), 1);
}

#[test]
fn clip_player_mute_does_not_stop_tick_advance() {
    let clip = make_clip(vec![(0, note_on(60))], 480);
    let mut player = ClipPlayer::new(clip, true);
    player.mute();
    player.advance(240);
    assert_eq!(player.current_tick(), 240);
}

#[test]
fn scene_player_mute_clip_targets_single_clip() {
    let mut scene = ScenePlayer::new();
    scene.add_clip(
        "a".to_string(),
        make_clip(vec![(0, note_on(60))], 480),
        true,
    );
    scene.add_clip(
        "b".to_string(),
        make_clip(vec![(0, note_on(72))], 480),
        true,
    );

    assert_eq!(scene.events_at(0).len(), 2);

    scene.mute_clip("a");
    assert!(scene.is_muted("a"));
    assert!(!scene.is_muted("b"));

    let events = scene.events_at(0);
    assert_eq!(events.len(), 1);
    assert!(matches!(
        events[0].message,
        MidiMessage::NoteOn { note: 72, .. }
    ));

    scene.unmute_clip("a");
    assert!(!scene.is_muted("a"));
    assert_eq!(scene.events_at(0).len(), 2);
}

#[test]
fn scene_player_mute_unknown_clip_is_noop() {
    let mut scene = ScenePlayer::new();
    scene.add_clip("a".to_string(), make_clip(vec![], 480), true);
    scene.mute_clip("unknown");
    assert!(!scene.is_muted("unknown"));
    assert!(!scene.is_muted("a"));
}

#[test]
fn scene_player_unmute_all_clears_all_mutes() {
    let mut scene = ScenePlayer::new();
    scene.add_clip(
        "a".to_string(),
        make_clip(vec![(0, note_on(60))], 480),
        true,
    );
    scene.add_clip(
        "b".to_string(),
        make_clip(vec![(0, note_on(72))], 480),
        true,
    );

    scene.mute_clip("a");
    scene.mute_clip("b");
    assert!(scene.is_muted("a") && scene.is_muted("b"));

    scene.unmute_all();
    assert!(!scene.is_muted("a") && !scene.is_muted("b"));
    assert_eq!(scene.events_at(0).len(), 2);
}

/// Dynamic clip replacement via ScenePlayer
#[test]
fn scene_player_replace_clip() {
    let mut scene = ScenePlayer::new();
    let clip_a = make_clip(vec![(0, note_on(60))], 480);
    let clip_b = make_clip(vec![(0, note_on(72))], 480);

    scene.add_clip("bass".to_string(), clip_a, true);

    scene.advance_all(240);
    scene.replace_clip("bass", clip_b);

    scene.advance_all(240);

    let events = scene.events_at(0);
    assert_eq!(events.len(), 1);
    assert!(matches!(
        events[0].message,
        MidiMessage::NoteOn { note: 72, .. }
    ));
}


/// ClipPlayer is not paused by default.
#[test]
fn clip_player_not_paused_by_default() {
    let clip = make_clip(vec![(0, note_on(60))], 480);
    let player = ClipPlayer::new(clip, true);
    assert!(!player.is_paused());
}

/// After pause, events_at returns empty; after resume, events come back.
#[test]
fn clip_player_pause_suppresses_events() {
    let clip = make_clip(vec![(0, note_on(60)), (240, note_on(64))], 480);
    let mut player = ClipPlayer::new(clip, true);

    assert_eq!(player.events_at(0).len(), 1);

    player.pause();
    assert!(player.is_paused());
    assert!(player.events_at(0).is_empty());
    assert!(player.events_at(240).is_empty());

    player.resume();
    assert!(!player.is_paused());
    assert_eq!(player.events_at(0).len(), 1);
    assert_eq!(player.events_at(240).len(), 1);
}

/// Tick does not advance while paused (phase frozen).
#[test]
fn clip_player_pause_freezes_tick() {
    let clip = make_clip(vec![(0, note_on(60))], 480);
    let mut player = ClipPlayer::new(clip, true);

    player.advance(120);
    assert_eq!(player.current_tick(), 120);

    player.pause();
    player.advance(240);
    // Tick is frozen while paused
    assert_eq!(player.current_tick(), 120);

    player.resume();
    player.advance(60);
    assert_eq!(player.current_tick(), 180);
}

/// paused and muted are independent flags.
#[test]
fn clip_player_paused_and_muted_are_independent() {
    let clip = make_clip(vec![(0, note_on(60))], 480);
    let mut player = ClipPlayer::new(clip, true);

    player.mute();
    assert!(player.is_muted());
    assert!(!player.is_paused());

    player.pause();
    assert!(player.is_muted());
    assert!(player.is_paused());

    player.unmute();
    assert!(!player.is_muted());
    assert!(player.is_paused());
    // muted is cleared but paused keeps events empty
    assert!(player.events_at(0).is_empty());

    player.resume();
    assert!(!player.is_paused());
    assert_eq!(player.events_at(0).len(), 1);
}

/// ScenePlayer::pause_clip pauses only the targeted clip.
#[test]
fn scene_player_pause_clip_targets_single_clip() {
    let mut scene = ScenePlayer::new();
    scene.add_clip(
        "a".to_string(),
        make_clip(vec![(0, note_on(60))], 480),
        true,
    );
    scene.add_clip(
        "b".to_string(),
        make_clip(vec![(0, note_on(72))], 480),
        true,
    );

    assert_eq!(scene.events_at(0).len(), 2);

    scene.pause_clip("a");
    assert!(scene.is_clip_paused("a"));
    assert!(!scene.is_clip_paused("b"));

    let events = scene.events_at(0);
    assert_eq!(events.len(), 1);
    assert!(matches!(
        events[0].message,
        MidiMessage::NoteOn { note: 72, .. }
    ));

    scene.resume_clip("a");
    assert!(!scene.is_clip_paused("a"));
    assert_eq!(scene.events_at(0).len(), 2);
}

/// pause/resume on an unknown clip name is a no-op.
#[test]
fn scene_player_pause_unknown_clip_is_noop() {
    let mut scene = ScenePlayer::new();
    scene.add_clip("a".to_string(), make_clip(vec![], 480), true);
    scene.pause_clip("unknown");
    assert!(!scene.is_clip_paused("unknown"));
    assert!(!scene.is_clip_paused("a"));
}

/// resume_all_clips clears paused state for every clip.
#[test]
fn scene_player_resume_all_clips_clears_all_pauses() {
    let mut scene = ScenePlayer::new();
    scene.add_clip(
        "a".to_string(),
        make_clip(vec![(0, note_on(60))], 480),
        true,
    );
    scene.add_clip(
        "b".to_string(),
        make_clip(vec![(0, note_on(72))], 480),
        true,
    );

    scene.pause_clip("a");
    scene.pause_clip("b");
    assert!(scene.is_clip_paused("a") && scene.is_clip_paused("b"));

    scene.resume_all_clips();
    assert!(!scene.is_clip_paused("a") && !scene.is_clip_paused("b"));
    assert_eq!(scene.events_at(0).len(), 2);
}

/// pause_all_clips pauses every clip in the scene.
#[test]
fn scene_player_pause_all_clips_pauses_all() {
    let mut scene = ScenePlayer::new();
    scene.add_clip(
        "a".to_string(),
        make_clip(vec![(0, note_on(60))], 480),
        true,
    );
    scene.add_clip(
        "b".to_string(),
        make_clip(vec![(0, note_on(72))], 480),
        true,
    );

    scene.pause_all_clips();
    assert!(scene.is_clip_paused("a") && scene.is_clip_paused("b"));
    assert!(scene.events_at(0).is_empty());

    // advance_all does not advance phase while paused
    scene.advance_all(240);
    scene.resume_all_clips();
    // After resume, events at tick 0 still apply
    assert_eq!(scene.events_at(0).len(), 2);
}



/// Test helper: build a CompiledClip with drum probability groups attached.
fn make_clip_with_groups(
    events: Vec<(u64, MidiMessage)>,
    total_ticks: u64,
    groups: Vec<DrumProbabilityGroup>,
) -> CompiledClip {
    CompiledClip {
        events: events
            .into_iter()
            .map(|(tick, message)| MidiEvent::new(tick, message, ""))
            .collect(),
        total_ticks,
        warnings: vec![],
        drum_mask_groups: groups,
        random_choice_groups: vec![],
    }
}

/// A group with probability=0 must be masked from the very first loop.
#[test]
fn drum_mask_zero_probability_always_muted() {
    let clip = make_clip_with_groups(
        vec![(0, note_on(60)), (60, note_off(60))],
        480,
        vec![DrumProbabilityGroup {
            event_indices: vec![0, 1],
            probability: 0,
        }],
    );
    let mut rng = StdRng::seed_from_u64(1);
    let player = ClipPlayer::new_with_rng(clip, true, &mut rng);
    assert!(player.events_at(0).is_empty());
    assert!(player.events_at(60).is_empty());
}

/// Even if a 100% group sneaks in, it must always trigger.
#[test]
fn drum_mask_full_probability_always_triggers() {
    let clip = make_clip_with_groups(
        vec![(0, note_on(60))],
        480,
        vec![DrumProbabilityGroup {
            event_indices: vec![0],
            probability: 100,
        }],
    );
    let mut rng = StdRng::seed_from_u64(1);
    let player = ClipPlayer::new_with_rng(clip, true, &mut rng);
    assert_eq!(player.events_at(0).len(), 1);
}

/// Mask must be rerolled every time the player crosses a loop boundary.
#[test]
fn drum_mask_reroll_changes_per_loop() {
    // 64 groups at 50% — observing the *same* mask twice in a row is
    // 2^-64. So if the two loops produce different masks, we know the
    // reroll path actually fired.
    let mut events = Vec::new();
    let mut groups = Vec::new();
    for i in 0..64u64 {
        let tick = i * 4;
        events.push((tick, note_on(60)));
        groups.push(DrumProbabilityGroup {
            event_indices: vec![i as usize],
            probability: 50,
        });
    }
    let clip = make_clip_with_groups(events, 480, groups);
    let mut rng = StdRng::seed_from_u64(7);
    let mut player = ClipPlayer::new_with_rng(clip, true, &mut rng);

    let first_mask = player.masked_event_indices().clone();
    player.advance(480);
    let second_mask = player.masked_event_indices().clone();

    assert_ne!(
        first_mask, second_mask,
        "mask must be rerolled at loop boundary"
    );
}

/// With no probability groups, masked_events stays empty across loops.
#[test]
fn drum_mask_no_groups_no_op() {
    let clip = make_clip(vec![(0, note_on(60))], 480);
    let mut rng = StdRng::seed_from_u64(7);
    let mut player = ClipPlayer::new_with_rng(clip, true, &mut rng);
    assert!(player.masked_event_indices().is_empty());
    player.advance(480);
    assert!(player.masked_event_indices().is_empty());
}



fn make_clip_with_random_groups(
    events: Vec<(u64, MidiMessage)>,
    total_ticks: u64,
    random_choice_groups: Vec<RandomChoiceGroup>,
) -> CompiledClip {
    CompiledClip {
        events: events
            .into_iter()
            .map(|(tick, message)| MidiEvent::new(tick, message, ""))
            .collect(),
        total_ticks,
        warnings: vec![],
        drum_mask_groups: vec![],
        random_choice_groups,
    }
}

/// In a 2-candidate group, exactly one candidate survives per loop and
/// the other is masked.
#[test]
fn random_choice_keeps_exactly_one_candidate_per_loop() {
    let clip = make_clip_with_random_groups(
        vec![(0, note_on(60)), (0, note_on(64))],
        480,
        vec![RandomChoiceGroup {
            candidates: vec![vec![0], vec![1]],
        }],
    );
    let mut rng = StdRng::seed_from_u64(1);
    let player = ClipPlayer::new_with_rng(clip, true, &mut rng);

    let events = player.events_at(0);
    assert_eq!(events.len(), 1, "ちょうど 1 候補だけ生き残るべき");
    assert_eq!(player.masked_event_indices().len(), 1);
}

/// Across a loop boundary, random selections must reroll. Build many
/// independent groups so two consecutive identical selections are
/// astronomically unlikely.
#[test]
fn random_choice_reroll_changes_per_loop() {
    let mut events = Vec::new();
    let mut groups: Vec<RandomChoiceGroup> = Vec::new();
    for i in 0..64u64 {
        let tick = i * 4;
        let on_idx_a = events.len();
        events.push((tick, note_on(60)));
        let on_idx_b = events.len();
        events.push((tick, note_on(72)));
        groups.push(RandomChoiceGroup {
            candidates: vec![vec![on_idx_a], vec![on_idx_b]],
        });
    }
    let clip = make_clip_with_random_groups(events, 480, groups);
    let mut rng = StdRng::seed_from_u64(7);
    let mut player = ClipPlayer::new_with_rng(clip, true, &mut rng);

    let first_mask = player.masked_event_indices().clone();
    player.advance(480);
    let second_mask = player.masked_event_indices().clone();

    assert_ne!(
        first_mask, second_mask,
        "random_choice mask must be rerolled at loop boundary"
    );
}

/// random_choice_groups and drum_mask_groups coexist; masks merge.
#[test]
fn random_choice_and_drum_mask_coexist() {
    let clip = CompiledClip {
        events: vec![
            MidiEvent::new(0, note_on(36), ""),
            MidiEvent::new(60, note_on(60), ""),
            MidiEvent::new(60, note_on(64), ""),
        ],
        total_ticks: 480,
        warnings: vec![],
        drum_mask_groups: vec![DrumProbabilityGroup {
            event_indices: vec![0],
            probability: 0,
        }],
        random_choice_groups: vec![RandomChoiceGroup {
            candidates: vec![vec![1], vec![2]],
        }],
    };
    let mut rng = StdRng::seed_from_u64(1);
    let player = ClipPlayer::new_with_rng(clip, true, &mut rng);

    assert_eq!(player.masked_event_indices().len(), 2);
    assert!(player.masked_event_indices().contains(&0));
}


#[test]
fn has_clip_answers_from_the_names_added() {
    let mut scene = ScenePlayer::new();
    scene.add_clip("a".to_string(), make_clip(vec![(0, note_on(60))], 480), true);
    scene.add_clip("b".to_string(), make_clip(vec![(0, note_on(62))], 240), true);
    scene.mute_clip("a");
    scene.pause_clip("b");
    scene.mute_clip("zzz");
    scene.advance_all(1);
    assert!(scene.has_clip("a"));
    assert!(scene.has_clip("b"));
    assert!(!scene.has_clip("c"));
    assert!(!scene.is_muted("c"));
    assert!(!scene.is_clip_paused("c"));
    assert!(scene.channels_of_clip("c").is_empty());
}

#[test]
fn checked_scene_tick_length_agrees_and_catches_overflow() {
    let mut scene = ScenePlayer::new();
    assert_eq!(scene.checked_scene_tick_length(), Some(0));
    scene.add_clip("three".to_string(), make_clip(vec![], 360), true);
    scene.add_clip("four".to_string(), make_clip(vec![], 480), true);
    assert_eq!(scene.checked_scene_tick_length(), Some(1440));
    assert_eq!(scene.checked_scene_tick_length(), Some(scene.scene_tick_length()));
    let mut big = ScenePlayer::new();
    big.add_clip("p".to_string(), make_clip(vec![], u64::MAX), true);
    big.add_clip("q".to_string(), make_clip(vec![], u64::MAX - 1), true);
    assert_eq!(big.checked_scene_tick_length(), None);
}

#[test]
fn can_advance_all_refuses_an_empty_clip_waiting_at_the_boundary() {
    let mut scene = ScenePlayer::new();
    scene.add_clip("a".to_string(), make_clip(vec![(0, note_on(60))], 2), true);
    assert!(scene.can_advance_all(1));
    scene.replace_clip("a", make_clip(vec![], 0));
    assert!(scene.can_advance_all(1));
    scene.advance_all(1);
    assert!(!scene.can_advance_all(1));
    assert!(scene.can_advance_all(0));
}

#[test]
fn commit_swaps_a_waiting_clip_before_its_own_loop_end() {
    // Eight bars at 480 per quarter; the note of each half is at 0 and 7680.
    let a = make_clip(vec![(0, note_on(60)), (7680, note_on(60))], 15360);
    let b = make_clip(vec![(0, note_on(64)), (7680, note_on(64))], 15360);
    let mut scene = ScenePlayer::new();
    scene.add_clip("long".to_string(), a, true);
    scene.add_clip("other".to_string(), make_clip(vec![(0, note_on(48))], 1920), true);
    scene.advance_all(7680);
    scene.replace_clip("long", b);
    assert!(matches!(scene.events_at(7680)[0].message, MidiMessage::NoteOn { note: 60, .. }));
    scene.commit_pending_clips();
    assert!(matches!(scene.events_at(7680)[0].message, MidiMessage::NoteOn { note: 64, .. }));
    // The other clip had nothing waiting and plays on as before.
    assert_eq!(scene.events_at(7680).len(), 2);
}

#[test]
fn clip_player_commit_plays_the_waiting_clip_from_its_head() {
    let mut player = ClipPlayer::new(make_clip(vec![(0, note_on(60))], 480), true);
    player.advance(100);
    player.commit_pending();
    assert_eq!(player.current_tick(), 100);
    player.replace_clip(make_clip(vec![(0, note_on(72))], 240));
    player.commit_pending();
    assert!(!player.has_pending());
    assert_eq!(player.current_tick(), 0);
    assert_eq!(player.total_ticks(), 240);
}
