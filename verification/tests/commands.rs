//! `play` and `stop`, the end of a scene loop, edits while playing, and
//! the transport messages, driven through the evaluator: blocks are
//! evaluated in order against one registry, clock and playing scene.

use lcvgc::ast::{
    Articulation, Block, ClipBody, ClipDef, ClipOptions, DeviceDef, InstrumentDef, MuteCommand, NoteEvent, PitchedClipBody,
    PitchedElement, PitchedLine, PlayCommand, PlayTarget, RepeatSpec, SceneDef, SceneEntry, SessionDef, SessionEntry,
    ShuffleCandidate, StopCommand, Tempo, UnmuteCommand,
};
use lcvgc::domain::{MidiChannel, NoteName};
use lcvgc::error::EngineError;
use lcvgc::evaluation::EvalResult;
use lcvgc::evaluator::Evaluator;
use lcvgc::midi::MidiMessage;
use lcvgc::player::ScenePlayer;
use lcvgc::timing::SceneTransitionOutcome;
use lcvgc::transitions::{extract_tempo_change, NextAction};

/// An evaluator, with the accessors these scenarios read.
struct Engine {
    ev: Evaluator,
}

impl Engine {
    fn new(bpm: i64) -> Engine {
        Engine { ev: Evaluator::new(bpm) }
    }

    fn eval_block(&mut self, block: Block) -> Result<EvalResult, EngineError> {
        self.ev.eval_block(block)
    }

    fn on_scene_loop_complete(&mut self) -> Result<SceneTransitionOutcome, EngineError> {
        self.ev.on_scene_loop_complete()
    }

    fn try_force_advance_session_on_grid(&mut self) -> Result<SceneTransitionOutcome, EngineError> {
        self.ev.try_force_advance_session_on_grid()
    }

    fn active_scene(&self) -> Option<&ScenePlayer> {
        self.ev.active_scene()
    }

    fn scene_name(&self) -> Option<&str> {
        self.ev.active_scene_name_for_test()
    }

    fn take_active_scene(&mut self) -> Option<ScenePlayer> {
        self.ev.take_active_scene()
    }

    fn take_pending_all_notes_off(&mut self) -> Vec<(String, MidiChannel)> {
        self.ev.take_pending_all_notes_off()
    }

    fn take_pending_transport(&mut self) -> Vec<(String, MidiMessage)> {
        self.ev.take_pending_transport()
    }

    fn bpm(&self) -> i64 {
        self.ev.bpm()
    }

    fn playing(&self) -> bool {
        self.ev.state().playing
    }

    fn paused(&self) -> bool {
        self.ev.state().paused
    }

    fn session(&self) -> bool {
        self.ev.state().session
    }
}

fn device(name: &str, transport: bool) -> Block {
    Block::Device(DeviceDef { name: name.into(), port: format!("port_{name}"), transport })
}

fn instrument(name: &str, device: &str, channel: u8) -> Block {
    Block::Instrument(InstrumentDef {
        name: name.into(),
        device: device.into(),
        channel: MidiChannel::from_one_based(channel).unwrap(),
        note: None,
        gate_normal: None,
        gate_staccato: None,
        velocity_normal: None,
        velocity_accent: None,
        velocity_ghost: None,
        cc_mappings: vec![],
        local_vars: vec![],
        unresolved: Default::default(),
    })
}

/// `clip <name> [bars 1] { <inst> <note> }`
fn note_clip(name: &str, inst: &str, note: NoteName) -> Block {
    let element = PitchedElement::Note(
        NoteEvent::Single { name: note, octave: None, duration: None, dotted: false },
        Articulation::Normal,
        None,
    );
    Block::Clip(ClipDef {
        name: name.into(),
        options: ClipOptions { bars: Some(1), time_sig: None, scale: None, octave_shift: 0 },
        body: ClipBody::Pitched(PitchedClipBody {
            lines: vec![PitchedLine { instrument: inst.into(), elements: vec![element], is_layer_start: false }],
            cc_automations: vec![],
        }),
    })
}

/// A clip without lines.
fn empty_clip(name: &str) -> Block {
    Block::Clip(ClipDef {
        name: name.into(),
        options: ClipOptions::default(),
        body: ClipBody::Pitched(PitchedClipBody { lines: vec![], cc_automations: vec![] }),
    })
}

fn clip_entry(clip: &str, muted: bool) -> SceneEntry {
    SceneEntry::Clip { candidates: vec![ShuffleCandidate { clip: clip.into(), weight: 1 }], probability: None, muted }
}

fn scene(name: &str, entries: Vec<SceneEntry>) -> Block {
    Block::Scene(SceneDef { name: name.into(), entries })
}

fn session(name: &str, entries: &[(&str, RepeatSpec)]) -> Block {
    Block::Session(SessionDef {
        name: name.into(),
        entries: entries.iter().map(|(s, r)| SessionEntry { scene: s.to_string(), repeat: *r }).collect(),
    })
}

fn play_scene(name: &str, repeat: RepeatSpec) -> Block {
    Block::Play(PlayCommand { target: PlayTarget::Scene(name.into()), repeat })
}

fn play_session(name: &str, repeat: RepeatSpec) -> Block {
    Block::Play(PlayCommand { target: PlayTarget::Session(name.into()), repeat })
}

fn stop(target: Option<&str>) -> Block {
    Block::Stop(StopCommand { target: target.map(|t| t.to_string()) })
}

/// `device dev`, instrument `inst` on `channel`, the clip and a scene
/// holding it.
fn setup_with_single_clip(clip_name: &str, scene_name: &str, channel: u8) -> Engine {
    let mut ev = Engine::new(120);
    ev.eval_block(device("dev", true)).unwrap();
    ev.eval_block(instrument("inst", "dev", channel)).unwrap();
    ev.eval_block(note_clip(clip_name, "inst", NoteName::C)).unwrap();
    ev.eval_block(scene(scene_name, vec![clip_entry(clip_name, false)])).unwrap();
    ev
}

/// A scene `verse` holding the empty clip `a`.
fn setup_verse_with_empty_clip(bpm: i64, scene_name: &str, tempo: Option<Tempo>) -> Engine {
    let mut ev = Engine::new(bpm);
    ev.eval_block(empty_clip("a")).unwrap();
    let mut entries = vec![clip_entry("a", false)];
    if let Some(t) = tempo {
        entries.push(SceneEntry::Tempo(t));
    }
    ev.eval_block(scene(scene_name, entries)).unwrap();
    ev
}

/// Clips `a` and `b`, scenes `s1` (a) and `s2` (b), and the session
/// `song` of the two.
fn setup_two_scene_session(first: RepeatSpec, s1_tempo: Option<Tempo>) -> Engine {
    let mut ev = Engine::new(120);
    ev.eval_block(empty_clip("a")).unwrap();
    ev.eval_block(empty_clip("b")).unwrap();
    let mut s1 = vec![clip_entry("a", false)];
    if let Some(t) = s1_tempo {
        s1.push(SceneEntry::Tempo(t));
    }
    ev.eval_block(scene("s1", s1)).unwrap();
    ev.eval_block(scene("s2", vec![clip_entry("b", false)])).unwrap();
    ev.eval_block(session("song", &[("s1", first), ("s2", RepeatSpec::Once)])).unwrap();
    ev
}

fn setup_playing_session_two_entries() -> Engine {
    let mut ev = setup_two_scene_session(RepeatSpec::Loop, None);
    ev.eval_block(play_session("song", RepeatSpec::Loop)).unwrap();
    ev
}

fn setup_playing_session_single_entry() -> Engine {
    let mut ev = Engine::new(120);
    ev.eval_block(empty_clip("a")).unwrap();
    ev.eval_block(scene("s1", vec![clip_entry("a", false)])).unwrap();
    ev.eval_block(session("song", &[("s1", RepeatSpec::Loop)])).unwrap();
    ev.eval_block(play_session("song", RepeatSpec::Once)).unwrap();
    ev
}

fn first_note_on(scene: &ScenePlayer) -> Option<u8> {
    scene.events_at(0).iter().find_map(|e| match e.message {
        MidiMessage::NoteOn { note, .. } => Some(note),
        _ => None,
    })
}

#[test]
fn eval_play_scene() {
    let mut ev = setup_verse_with_empty_clip(120, "verse", None);
    let result = ev.eval_block(play_scene("verse", RepeatSpec::Loop)).unwrap();
    assert_eq!(result, EvalResult::PlayStarted);
    assert!(ev.playing() && !ev.session());
    assert!(ev.active_scene().is_some());
    assert_eq!(ev.active_scene().unwrap().clip_count(), 1);
}

#[test]
fn eval_play_scene_unknown_errors() {
    let mut ev = Engine::new(120);
    let err = ev.eval_block(play_scene("missing", RepeatSpec::Loop)).unwrap_err();
    assert!(matches!(err, EngineError::UnknownScene(ref n) if n == "missing"));
}

#[test]
fn eval_play_scene_unknown_clip_errors() {
    let mut ev = Engine::new(120);
    ev.eval_block(scene("verse", vec![clip_entry("ghost", false)])).unwrap();
    let err = ev.eval_block(play_scene("verse", RepeatSpec::Loop)).unwrap_err();
    assert!(matches!(err, EngineError::UnknownClip(ref n) if n == "ghost"));
}

#[test]
fn eval_play_session_builds_first_scene() {
    let mut ev = Engine::new(120);
    ev.eval_block(empty_clip("a")).unwrap();
    ev.eval_block(scene("s1", vec![clip_entry("a", false)])).unwrap();
    ev.eval_block(session("song", &[("s1", RepeatSpec::Once)])).unwrap();
    ev.eval_block(play_session("song", RepeatSpec::Once)).unwrap();
    assert!(ev.active_scene().is_some());
    assert_eq!(ev.active_scene().unwrap().clip_count(), 1);
}

#[test]
fn on_scene_loop_complete_transitions_to_next_scene() {
    let mut ev = setup_two_scene_session(RepeatSpec::Once, None);
    ev.eval_block(play_session("song", RepeatSpec::Once)).unwrap();
    let outcome = ev.on_scene_loop_complete().unwrap();
    assert_eq!(outcome, SceneTransitionOutcome::NextScene { scene_name: "s1".into() });
    let outcome = ev.on_scene_loop_complete().unwrap();
    assert_eq!(outcome, SceneTransitionOutcome::NextScene { scene_name: "s2".into() });
    assert!(ev.active_scene().is_some());
    let outcome = ev.on_scene_loop_complete().unwrap();
    assert_eq!(outcome, SceneTransitionOutcome::SessionComplete);
    assert!(ev.active_scene().is_none());
}

#[test]
fn on_scene_loop_complete_loop_returns_continue() {
    let mut ev = setup_verse_with_empty_clip(120, "verse", None);
    ev.eval_block(play_scene("verse", RepeatSpec::Loop)).unwrap();
    let outcome = ev.on_scene_loop_complete().unwrap();
    assert_eq!(outcome, SceneTransitionOutcome::Continue);
    assert!(ev.active_scene().is_some());
}

#[test]
fn on_scene_loop_complete_applies_relative_tempo_cumulatively() {
    let mut ev = setup_verse_with_empty_clip(120, "buildup", Some(Tempo::Relative(5)));
    ev.eval_block(play_scene("buildup", RepeatSpec::Loop)).unwrap();
    assert_eq!(ev.bpm(), 120);
    ev.on_scene_loop_complete().unwrap();
    assert_eq!(ev.bpm(), 125);
    ev.on_scene_loop_complete().unwrap();
    assert_eq!(ev.bpm(), 130);
    ev.on_scene_loop_complete().unwrap();
    assert_eq!(ev.bpm(), 135);
}

#[test]
fn on_scene_loop_complete_applies_absolute_tempo_each_loop() {
    let mut ev = setup_verse_with_empty_clip(140, "drop", Some(Tempo::Absolute(120)));
    ev.eval_block(play_scene("drop", RepeatSpec::Loop)).unwrap();
    assert_eq!(ev.bpm(), 140);
    ev.on_scene_loop_complete().unwrap();
    assert_eq!(ev.bpm(), 120);
    ev.on_scene_loop_complete().unwrap();
    assert_eq!(ev.bpm(), 120);
}

#[test]
fn on_scene_loop_complete_relative_uses_dynamic_tempo_as_base() {
    let mut ev = setup_verse_with_empty_clip(120, "buildup", Some(Tempo::Relative(5)));
    ev.eval_block(play_scene("buildup", RepeatSpec::Loop)).unwrap();
    ev.on_scene_loop_complete().unwrap();
    assert_eq!(ev.bpm(), 125);
    ev.eval_block(Block::Tempo(Tempo::Absolute(140))).unwrap();
    assert_eq!(ev.bpm(), 140);
    ev.on_scene_loop_complete().unwrap();
    assert_eq!(ev.bpm(), 145);
}

#[test]
fn on_scene_loop_complete_no_tempo_entry_keeps_bpm() {
    let mut ev = setup_verse_with_empty_clip(120, "verse", None);
    ev.eval_block(play_scene("verse", RepeatSpec::Loop)).unwrap();
    for _ in 0..5 {
        ev.on_scene_loop_complete().unwrap();
        assert_eq!(ev.bpm(), 120);
    }
}

#[test]
fn on_scene_loop_complete_session_transition_applies_prev_scene_tempo_only() {
    let mut ev = setup_two_scene_session(RepeatSpec::Once, Some(Tempo::Relative(5)));
    ev.eval_block(play_session("song", RepeatSpec::Once)).unwrap();
    let outcome = ev.on_scene_loop_complete().unwrap();
    assert_eq!(outcome, SceneTransitionOutcome::NextScene { scene_name: "s1".into() });
    assert_eq!(ev.bpm(), 125);
    let outcome = ev.on_scene_loop_complete().unwrap();
    assert_eq!(outcome, SceneTransitionOutcome::NextScene { scene_name: "s2".into() });
    assert_eq!(ev.bpm(), 130);
    let outcome = ev.on_scene_loop_complete().unwrap();
    assert_eq!(outcome, SceneTransitionOutcome::SessionComplete);
    assert_eq!(ev.bpm(), 130);
}

#[test]
fn on_scene_loop_complete_once_returns_scene_complete() {
    let mut ev = setup_verse_with_empty_clip(120, "verse", None);
    ev.eval_block(play_scene("verse", RepeatSpec::Once)).unwrap();
    let outcome = ev.on_scene_loop_complete().unwrap();
    assert_eq!(outcome, SceneTransitionOutcome::SceneComplete);
    assert!(ev.active_scene().is_none());
}

#[test]
fn reeval_clip_during_session_forces_scene_advance_on_grid() {
    let mut ev = setup_playing_session_two_entries();
    assert_eq!(ev.try_force_advance_session_on_grid().unwrap(), SceneTransitionOutcome::Continue);
    assert_eq!(ev.scene_name(), Some("s1"));
    ev.eval_block(empty_clip("a")).unwrap();
    assert_eq!(ev.try_force_advance_session_on_grid().unwrap(), SceneTransitionOutcome::NextScene { scene_name: "s2".into() });
    assert_eq!(ev.scene_name(), Some("s2"));
}

#[test]
fn reeval_active_scene_during_session_forces_advance() {
    let mut ev = setup_playing_session_two_entries();
    ev.eval_block(scene("s1", vec![clip_entry("b", false)])).unwrap();
    assert_eq!(ev.try_force_advance_session_on_grid().unwrap(), SceneTransitionOutcome::NextScene { scene_name: "s2".into() });
}

#[test]
fn reeval_inactive_scene_during_session_does_not_force() {
    let mut ev = setup_playing_session_two_entries();
    ev.eval_block(scene("s2", vec![clip_entry("a", false)])).unwrap();
    assert_eq!(ev.try_force_advance_session_on_grid().unwrap(), SceneTransitionOutcome::Continue);
    assert_eq!(ev.scene_name(), Some("s1"));
}

#[test]
fn reeval_session_def_forces_advance_on_grid() {
    let mut ev = setup_playing_session_two_entries();
    ev.eval_block(session("song", &[("s1", RepeatSpec::Loop), ("s2", RepeatSpec::Once)])).unwrap();
    let outcome = ev.try_force_advance_session_on_grid().unwrap();
    assert!(matches!(outcome, SceneTransitionOutcome::NextScene { .. }));
}

#[test]
fn reeval_clip_in_single_entry_session_keeps_scene() {
    let mut ev = setup_playing_session_single_entry();
    assert_eq!(ev.scene_name(), Some("s1"));
    ev.eval_block(empty_clip("a")).unwrap();
    assert_eq!(ev.try_force_advance_session_on_grid().unwrap(), SceneTransitionOutcome::Continue);
    assert_eq!(ev.scene_name(), Some("s1"), "a single-entry session keeps its scene playing");
    assert!(ev.active_scene().is_some(), "the playing scene must stay");
}

#[test]
fn reeval_active_scene_in_single_entry_session_keeps_scene() {
    let mut ev = setup_playing_session_single_entry();
    ev.eval_block(scene("s1", vec![clip_entry("a", false)])).unwrap();
    assert_eq!(ev.try_force_advance_session_on_grid().unwrap(), SceneTransitionOutcome::Continue);
    assert_eq!(ev.scene_name(), Some("s1"));
    assert!(ev.active_scene().is_some());
}

#[test]
fn reeval_single_entry_session_def_keeps_scene() {
    let mut ev = setup_playing_session_single_entry();
    ev.eval_block(session("song", &[("s1", RepeatSpec::Loop)])).unwrap();
    let outcome = ev.try_force_advance_session_on_grid().unwrap();
    assert!(
        !matches!(outcome, SceneTransitionOutcome::SceneComplete | SceneTransitionOutcome::SessionComplete),
        "playback must not stop: {outcome:?}"
    );
    assert_eq!(ev.scene_name(), Some("s1"));
    assert!(ev.active_scene().is_some(), "the playing scene must stay");
}

#[test]
fn reeval_clip_in_plain_scene_does_not_force_advance() {
    let mut ev = setup_with_single_clip("c1", "s1", 1);
    ev.eval_block(play_scene("s1", RepeatSpec::Loop)).unwrap();
    ev.eval_block(note_clip("c1", "inst", NoteName::E)).unwrap();
    assert_eq!(ev.try_force_advance_session_on_grid().unwrap(), SceneTransitionOutcome::Continue);
}

#[test]
fn reeval_clip_without_active_scene_is_registry_only() {
    let mut ev = setup_with_single_clip("c1", "s1", 1);
    assert!(ev.active_scene().is_none());
    ev.eval_block(note_clip("c1", "inst", NoteName::E)).unwrap();
    assert!(ev.active_scene().is_none());
}

#[test]
fn reeval_clip_while_playing_keeps_old_clip_until_the_grid() {
    let mut ev = setup_with_single_clip("c1", "s1", 1);
    ev.eval_block(play_scene("s1", RepeatSpec::Loop)).unwrap();
    let before = first_note_on(ev.active_scene().unwrap()).expect("initial NoteOn at tick 0");
    ev.eval_block(note_clip("c1", "inst", NoteName::E)).unwrap();
    let still = first_note_on(ev.active_scene().unwrap()).expect("NoteOn still present");
    assert_eq!(still, before, "the clip must not switch before the grid boundary");
}

#[test]
fn reeval_clip_while_playing_stages_pending_and_commit_swaps() {
    let mut ev = setup_with_single_clip("c1", "s1", 1);
    ev.eval_block(play_scene("s1", RepeatSpec::Loop)).unwrap();
    let before = first_note_on(ev.active_scene().unwrap()).expect("initial NoteOn at tick 0");
    ev.eval_block(note_clip("c1", "inst", NoteName::E)).unwrap();
    let still = first_note_on(ev.active_scene().unwrap()).expect("NoteOn still present before commit");
    assert_eq!(still, before);
    ev.ev.commit_pending_clips();
    let after = first_note_on(ev.active_scene().unwrap()).expect("NoteOn after commit");
    assert_eq!(after, before + 4);
}

#[test]
fn reeval_clip_that_does_not_compile_keeps_playing() {
    let mut ev = setup_with_single_clip("c1", "s1", 1);
    ev.eval_block(play_scene("s1", RepeatSpec::Loop)).unwrap();
    let before = first_note_on(ev.active_scene().unwrap()).unwrap();
    let err = ev.eval_block(note_clip("c1", "nobody", NoteName::E)).unwrap_err();
    assert!(matches!(err, EngineError::UnknownInstrument(ref n) if n == "nobody"));
    assert_eq!(first_note_on(ev.active_scene().unwrap()), Some(before));
    assert!(!ev.ev.force_scene_advance_requested());
}

#[test]
fn stop_none_queues_all_notes_off_for_active_scene_channels() {
    let mut ev = setup_with_single_clip("a", "verse", 5);
    ev.eval_block(play_scene("verse", RepeatSpec::Loop)).unwrap();
    ev.eval_block(stop(None)).unwrap();
    let channels = ev.take_pending_all_notes_off();
    assert_eq!(channels, vec![("dev".to_string(), MidiChannel::from_one_based(5).unwrap())]);
    assert!(ev.active_scene().is_none());
    assert!(!ev.playing() && ev.ev.state().current.is_none());
}

#[test]
fn stop_with_current_scene_name_fully_stops() {
    let mut ev = setup_with_single_clip("a", "verse", 7);
    ev.eval_block(play_scene("verse", RepeatSpec::Loop)).unwrap();
    ev.eval_block(stop(Some("verse"))).unwrap();
    assert_eq!(ev.take_pending_all_notes_off(), vec![("dev".to_string(), MidiChannel::from_one_based(7).unwrap())]);
    assert!(ev.active_scene().is_none());
}

#[test]
fn stop_with_multi_device_queues_all_device_channel_pairs() {
    let mut ev = Engine::new(120);
    ev.eval_block(device("synth_a", true)).unwrap();
    ev.eval_block(device("synth_b", true)).unwrap();
    ev.eval_block(instrument("lead", "synth_a", 1)).unwrap();
    ev.eval_block(instrument("pad", "synth_b", 2)).unwrap();
    ev.eval_block(note_clip("a", "lead", NoteName::C)).unwrap();
    ev.eval_block(note_clip("b", "pad", NoteName::C)).unwrap();
    ev.eval_block(scene("verse", vec![clip_entry("a", false), clip_entry("b", false)])).unwrap();
    ev.eval_block(play_scene("verse", RepeatSpec::Loop)).unwrap();
    ev.eval_block(stop(None)).unwrap();
    let mut pairs = ev.take_pending_all_notes_off();
    pairs.sort();
    assert_eq!(
        pairs,
        vec![
            ("synth_a".to_string(), MidiChannel::from_one_based(1).unwrap()),
            ("synth_b".to_string(), MidiChannel::from_one_based(2).unwrap()),
        ],
    );
}

#[test]
fn stop_with_clip_name_is_noop() {
    let mut ev = Engine::new(120);
    ev.eval_block(device("dev", true)).unwrap();
    ev.eval_block(instrument("inst_a", "dev", 2)).unwrap();
    ev.eval_block(note_clip("a", "inst_a", NoteName::C)).unwrap();
    ev.eval_block(scene("verse", vec![clip_entry("a", false)])).unwrap();
    ev.eval_block(play_scene("verse", RepeatSpec::Loop)).unwrap();
    ev.eval_block(stop(Some("a"))).unwrap();
    let scene = ev.active_scene().unwrap();
    assert!(!scene.is_muted("a"));
    assert!(ev.take_pending_all_notes_off().is_empty());
    assert!(ev.playing() && !ev.session());
}

#[test]
fn stop_with_unknown_target_is_noop() {
    let mut ev = setup_with_single_clip("a", "verse", 3);
    ev.eval_block(play_scene("verse", RepeatSpec::Loop)).unwrap();
    ev.eval_block(stop(Some("ghost"))).unwrap();
    assert!(ev.active_scene().is_some());
    assert!(ev.take_pending_all_notes_off().is_empty());
    assert!(ev.playing() && !ev.session());
}

#[test]
fn take_active_scene_transfers_ownership() {
    let mut ev = setup_verse_with_empty_clip(120, "verse", None);
    ev.eval_block(play_scene("verse", RepeatSpec::Loop)).unwrap();
    let taken = ev.take_active_scene();
    assert!(taken.is_some());
    assert!(ev.active_scene().is_none());
}

#[test]
fn eval_play_session() {
    let mut ev = Engine::new(120);
    ev.eval_block(session("song", &[])).unwrap();
    let result = ev.eval_block(play_session("song", RepeatSpec::Count(2))).unwrap();
    assert_eq!(result, EvalResult::PlayStarted);
    assert!(ev.playing() && ev.session());
}

#[test]
fn eval_play_session_unknown_errors() {
    let mut ev = Engine::new(120);
    let err = ev.eval_block(play_session("missing", RepeatSpec::Once)).unwrap_err();
    assert!(matches!(err, EngineError::UnknownSession(ref n) if n == "missing"));
}

#[test]
fn eval_stop() {
    let mut ev = Engine::new(120);
    ev.eval_block(scene("verse", vec![])).unwrap();
    ev.eval_block(play_scene("verse", RepeatSpec::Loop)).unwrap();
    let result = ev.eval_block(stop(None)).unwrap();
    assert_eq!(result, EvalResult::Stopped);
    assert!(!ev.playing() && !ev.paused() && ev.ev.state().current.is_none());
}

#[test]
fn play_queues_midi_start_for_transport_devices() {
    let mut ev = setup_with_single_clip("a", "verse", 1);
    assert!(ev.take_pending_transport().is_empty());
    ev.eval_block(play_scene("verse", RepeatSpec::Loop)).unwrap();
    let queue = ev.take_pending_transport();
    assert_eq!(queue, vec![("dev".to_string(), MidiMessage::Start)]);
}

#[test]
fn stop_queues_midi_stop_for_transport_devices() {
    let mut ev = setup_with_single_clip("a", "verse", 1);
    ev.eval_block(play_scene("verse", RepeatSpec::Loop)).unwrap();
    let _ = ev.take_pending_transport();
    ev.eval_block(stop(None)).unwrap();
    let queue = ev.take_pending_transport();
    assert_eq!(queue, vec![("dev".to_string(), MidiMessage::Stop)]);
}

#[test]
fn transport_false_devices_do_not_receive_transport_messages() {
    let mut ev = Engine::new(120);
    ev.eval_block(device("a", true)).unwrap();
    ev.eval_block(device("b", false)).unwrap();
    ev.eval_block(instrument("inst_a", "a", 1)).unwrap();
    ev.eval_block(note_clip("c", "inst_a", NoteName::C)).unwrap();
    ev.eval_block(scene("s", vec![clip_entry("c", false)])).unwrap();
    ev.eval_block(play_scene("s", RepeatSpec::Loop)).unwrap();
    let queue = ev.take_pending_transport();
    let names: Vec<&str> = queue.iter().map(|(d, _)| d.as_str()).collect();
    assert!(names.contains(&"a"), "device a (transport=true) must receive Start");
    assert!(!names.contains(&"b"), "device b (transport=false) must NOT receive Start");
    ev.eval_block(stop(None)).unwrap();
    let queue = ev.take_pending_transport();
    let names: Vec<&str> = queue.iter().map(|(d, _)| d.as_str()).collect();
    assert!(names.contains(&"a"));
    assert!(!names.contains(&"b"));
}

#[test]
fn multiple_transport_true_devices_all_receive_messages() {
    let mut ev = Engine::new(120);
    ev.eval_block(device("a", true)).unwrap();
    ev.eval_block(device("b", true)).unwrap();
    ev.eval_block(instrument("inst_a", "a", 1)).unwrap();
    ev.eval_block(note_clip("c", "inst_a", NoteName::C)).unwrap();
    ev.eval_block(scene("s", vec![clip_entry("c", false)])).unwrap();
    ev.eval_block(play_scene("s", RepeatSpec::Loop)).unwrap();
    let mut queue = ev.take_pending_transport();
    queue.sort_by(|a, b| a.0.cmp(&b.0));
    assert_eq!(queue, vec![("a".to_string(), MidiMessage::Start), ("b".to_string(), MidiMessage::Start)]);
}

#[test]
fn failed_play_does_not_queue_transport() {
    let mut ev = setup_with_single_clip("a", "verse", 1);
    let _ = ev.eval_block(play_scene("missing", RepeatSpec::Loop));
    assert!(ev.take_pending_transport().is_empty());
}

#[test]
fn scene_internal_mute_prefix_initially_mutes_clip_on_activate() {
    let mut ev = Engine::new(120);
    ev.eval_block(device("dev", true)).unwrap();
    ev.eval_block(instrument("inst_a", "dev", 2)).unwrap();
    ev.eval_block(instrument("inst_b", "dev", 3)).unwrap();
    ev.eval_block(note_clip("a", "inst_a", NoteName::C)).unwrap();
    ev.eval_block(note_clip("b", "inst_b", NoteName::C)).unwrap();
    ev.eval_block(scene("verse", vec![clip_entry("a", false), clip_entry("b", true)])).unwrap();
    ev.eval_block(play_scene("verse", RepeatSpec::Loop)).unwrap();
    let scene = ev.active_scene().unwrap();
    assert!(!scene.is_muted("a"), "a starts unmuted");
    assert!(scene.is_muted("b"), "b, marked mute in the scene, starts muted");
    assert!(ev.take_pending_all_notes_off().is_empty(), "an initial mute queues no All Notes Off");
}

#[test]
fn scene_internal_mute_prefix_can_be_unmuted_dynamically() {
    let mut ev = Engine::new(120);
    ev.eval_block(device("dev", true)).unwrap();
    ev.eval_block(instrument("inst_b", "dev", 3)).unwrap();
    ev.eval_block(note_clip("b", "inst_b", NoteName::C)).unwrap();
    ev.eval_block(scene("verse", vec![clip_entry("b", true)])).unwrap();
    ev.eval_block(play_scene("verse", RepeatSpec::Loop)).unwrap();
    assert!(ev.active_scene().unwrap().is_muted("b"));
    ev.eval_block(Block::Unmute(UnmuteCommand { target: "b".into() })).unwrap();
    assert!(!ev.active_scene().unwrap().is_muted("b"), "unmute releases the initial mute");
}

#[test]
fn scene_switch_reinitializes_mute_state_from_declaration() {
    let mut ev = Engine::new(120);
    ev.eval_block(device("dev", true)).unwrap();
    ev.eval_block(instrument("inst_a", "dev", 2)).unwrap();
    ev.eval_block(instrument("inst_b", "dev", 3)).unwrap();
    ev.eval_block(note_clip("a", "inst_a", NoteName::C)).unwrap();
    ev.eval_block(note_clip("b", "inst_b", NoteName::C)).unwrap();
    ev.eval_block(scene("verse", vec![clip_entry("a", true), clip_entry("b", false)])).unwrap();
    ev.eval_block(scene("chorus", vec![clip_entry("a", false), clip_entry("b", true)])).unwrap();
    ev.eval_block(play_scene("verse", RepeatSpec::Loop)).unwrap();
    assert!(ev.active_scene().unwrap().is_muted("a"));
    assert!(!ev.active_scene().unwrap().is_muted("b"));
    ev.eval_block(Block::Mute(MuteCommand { target: "b".into() })).unwrap();
    assert!(ev.active_scene().unwrap().is_muted("b"));
    ev.take_pending_all_notes_off();
    ev.eval_block(play_scene("chorus", RepeatSpec::Loop)).unwrap();
    assert!(!ev.active_scene().unwrap().is_muted("a"), "chorus declares a unmuted");
    assert!(ev.active_scene().unwrap().is_muted("b"), "chorus declares b muted; the earlier mute is not carried over");
}

#[test]
fn extract_tempo_change_takes_the_last_tempo_entry() {
    let s = SceneDef {
        name: "s".into(),
        entries: vec![SceneEntry::Tempo(Tempo::Absolute(120)), clip_entry("a", false), SceneEntry::Tempo(Tempo::Relative(-3))],
    };
    assert_eq!(extract_tempo_change(&s), Some(Tempo::Relative(-3)));
    let none = SceneDef { name: "t".into(), entries: vec![clip_entry("a", false)] };
    assert_eq!(extract_tempo_change(&none), None);
}

#[test]
fn next_session_entry_with_unknown_scene_is_an_error_that_keeps_the_scene() {
    let mut ev = setup_verse_with_empty_clip(120, "verse", None);
    ev.eval_block(play_scene("verse", RepeatSpec::Loop)).unwrap();
    let r = ev.ev.apply_next_action(NextAction::NextSessionEntry { scene_name: "nowhere".into() });
    assert!(matches!(r, Err(EngineError::UnknownScene(ref n)) if n == "nowhere"));
    assert!(ev.active_scene().is_some());
    assert_eq!(ev.scene_name(), Some("verse"));
}

#[test]
fn play_session_without_entries_plays_no_scene_and_queues_start() {
    let mut ev = Engine::new(120);
    ev.eval_block(device("dev", true)).unwrap();
    ev.eval_block(session("song", &[])).unwrap();
    ev.eval_block(play_session("song", RepeatSpec::Once)).unwrap();
    assert!(ev.active_scene().is_none());
    assert_eq!(ev.take_pending_transport(), vec![("dev".to_string(), MidiMessage::Start)]);
}

#[test]
fn play_session_with_unknown_first_scene_errors() {
    let mut ev = Engine::new(120);
    ev.eval_block(session("song", &[("ghost", RepeatSpec::Once)])).unwrap();
    let err = ev.eval_block(play_session("song", RepeatSpec::Once)).unwrap_err();
    assert!(matches!(err, EngineError::UnknownScene(ref n) if n == "ghost"));
    assert!(ev.take_pending_transport().is_empty());
}
