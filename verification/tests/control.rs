//! The playback control commands `mute`, `unmute`, `pause` and `resume`,
//! evaluated against a scene built from registered clips.

use lcvgc::ast::{
    Articulation, Block, ClipBody, ClipDef, ClipOptions, DeviceDef, InstrumentDef, MuteCommand, NoteEvent, PauseCommand,
    PitchedClipBody, PitchedElement, PitchedLine, PlayCommand, PlayTarget, RepeatSpec, ResumeCommand, SceneDef, SceneEntry,
    ShuffleCandidate, UnmuteCommand,
};
use lcvgc::control::PlaybackView;
use lcvgc::domain::{MidiChannel, NoteName};
use lcvgc::evaluation::EvalResult;
use lcvgc::evaluator::Evaluator;
use lcvgc::player::ScenePlayer;

/// An evaluator with shorthands for the blocks these scenarios need.
struct Live {
    ev: Evaluator,
}

impl Live {
    fn new() -> Live {
        Live { ev: Evaluator::new(120) }
    }

    fn device(&mut self, name: &str) {
        self.ev.eval_block(Block::Device(DeviceDef { name: name.into(), port: "test".into(), transport: true })).unwrap();
    }

    fn instrument(&mut self, name: &str, device: &str, channel: u8) {
        self.ev
            .eval_block(Block::Instrument(InstrumentDef {
                name: name.into(),
                device: device.into(),
                channel: MidiChannel::from_one_based(channel).unwrap(),
                note: None,
                gate_normal: None,
                gate_staccato: None,
                velocity_normal: None,
                velocity_accent: None,
                velocity_ghost: None,
                cc_mappings: vec![],
                local_vars: vec![],
                unresolved: Default::default(),
            }))
            .unwrap();
    }

    /// `clip <name> [bars 1] { <inst> c }`
    fn clip(&mut self, name: &str, inst: &str) {
        let note = PitchedElement::Note(
            NoteEvent::Single { name: NoteName::C, octave: None, duration: None, dotted: false },
            Articulation::Normal,
            None,
        );
        self.ev
            .eval_block(Block::Clip(ClipDef {
                name: name.into(),
                options: ClipOptions { bars: Some(1), time_sig: None, scale: None, octave_shift: 0 },
                body: ClipBody::Pitched(PitchedClipBody {
                    lines: vec![PitchedLine { instrument: inst.into(), elements: vec![note], is_layer_start: false }],
                    cc_automations: vec![],
                }),
            }))
            .unwrap();
    }

    fn scene(&mut self, name: &str, clips: &[&str]) {
        let entries = clips
            .iter()
            .map(|c| SceneEntry::Clip {
                candidates: vec![ShuffleCandidate { clip: c.to_string(), weight: 1 }],
                probability: None,
                muted: false,
            })
            .collect();
        self.ev.eval_block(Block::Scene(SceneDef { name: name.into(), entries })).unwrap();
    }

    /// `play <scene> loop`
    fn play(&mut self, name: &str) {
        self.ev.eval_block(Block::Play(PlayCommand { target: PlayTarget::Scene(name.into()), repeat: RepeatSpec::Loop })).unwrap();
    }

    fn mute(&mut self, target: &str) -> EvalResult {
        self.ev.eval_block(Block::Mute(MuteCommand { target: target.into() })).unwrap()
    }

    fn unmute(&mut self, target: &str) -> EvalResult {
        self.ev.eval_block(Block::Unmute(UnmuteCommand { target: target.into() })).unwrap()
    }

    fn pause(&mut self, target: Option<&str>) -> EvalResult {
        self.ev.eval_block(Block::Pause(PauseCommand { target: target.map(|t| t.to_string()) })).unwrap()
    }

    fn resume(&mut self, target: Option<&str>) -> EvalResult {
        self.ev.eval_block(Block::Resume(ResumeCommand { target: target.map(|t| t.to_string()) })).unwrap()
    }

    fn take_pending_all_notes_off(&mut self) -> Vec<(String, MidiChannel)> {
        self.ev.take_pending_all_notes_off()
    }

    fn active_scene(&self) -> Option<&ScenePlayer> {
        self.ev.active_scene()
    }

    fn view(&self) -> &PlaybackView {
        self.ev.state()
    }
}

/// One device `dev`, instrument `inst` on `channel`, clip `clip_name`
/// and scene `scene_name` holding it.
fn setup_with_single_clip(clip_name: &str, scene_name: &str, channel: u8) -> Live {
    let mut ev = Live::new();
    ev.device("dev");
    ev.instrument("inst", "dev", channel);
    ev.clip(clip_name, "inst");
    ev.scene(scene_name, &[clip_name]);
    ev
}

/// Clips `a` (channel 2) and `b` (channel 9) on device `dev`, scene `verse`.
fn setup_two_clips() -> Live {
    let mut ev = Live::new();
    ev.device("dev");
    ev.instrument("inst_a", "dev", 2);
    ev.instrument("inst_b", "dev", 9);
    ev.clip("a", "inst_a");
    ev.clip("b", "inst_b");
    ev.scene("verse", &["a", "b"]);
    ev
}

#[test]
fn mute_with_clip_name_mutes_and_queues_its_channel() {
    let mut ev = setup_two_clips();
    ev.play("verse");
    let result = ev.mute("a");
    assert!(matches!(result, EvalResult::Muted { ref target } if target == "a"));
    let scene = ev.active_scene().unwrap();
    assert!(scene.is_muted("a"));
    assert!(!scene.is_muted("b"));
    assert_eq!(ev.take_pending_all_notes_off(), vec![("dev".to_string(), MidiChannel::from_one_based(2).unwrap())]);
    assert!(ev.view().playing);
}

#[test]
fn mute_with_unknown_clip_is_noop() {
    let mut ev = setup_with_single_clip("a", "verse", 3);
    ev.play("verse");
    let result = ev.mute("ghost");
    assert!(matches!(result, EvalResult::MutedNoop { .. }));
    let scene = ev.active_scene().unwrap();
    assert!(!scene.is_muted("a"));
    assert!(ev.take_pending_all_notes_off().is_empty());
}

#[test]
fn mute_with_multi_device_queues_only_target_device_channel() {
    let mut ev = Live::new();
    ev.device("synth_a");
    ev.device("synth_b");
    ev.instrument("lead", "synth_a", 1);
    ev.instrument("pad", "synth_b", 2);
    ev.clip("a", "lead");
    ev.clip("b", "pad");
    ev.scene("verse", &["a", "b"]);
    ev.play("verse");
    ev.mute("a");
    assert_eq!(
        ev.take_pending_all_notes_off(),
        vec![("synth_a".to_string(), MidiChannel::from_one_based(1).unwrap())],
        "mute queues All Notes Off for the target device and channel only"
    );
}

#[test]
fn mute_without_active_scene_is_noop() {
    let mut ev = Live::new();
    let result = ev.mute("a");
    assert!(matches!(result, EvalResult::MutedNoop { .. }));
}

#[test]
fn unmute_with_clip_name_releases_mute() {
    let mut ev = Live::new();
    ev.device("dev");
    ev.instrument("inst_a", "dev", 2);
    ev.clip("a", "inst_a");
    ev.scene("verse", &["a"]);
    ev.play("verse");
    ev.mute("a");
    let _ = ev.take_pending_all_notes_off();
    let result = ev.unmute("a");
    assert!(matches!(result, EvalResult::Unmuted { ref target } if target == "a"));
    let scene = ev.active_scene().unwrap();
    assert!(!scene.is_muted("a"));
    assert!(ev.take_pending_all_notes_off().is_empty());
}

#[test]
fn unmute_with_unknown_clip_is_noop() {
    let mut ev = setup_with_single_clip("a", "verse", 3);
    ev.play("verse");
    let result = ev.unmute("ghost");
    assert!(matches!(result, EvalResult::UnmutedNoop { .. }));
}

#[test]
fn pause_none_queues_all_notes_off_and_pauses_clips() {
    let mut ev = setup_with_single_clip("a", "verse", 5);
    ev.play("verse");
    let result = ev.pause(None);
    assert_eq!(result, EvalResult::Paused { target: None });
    assert!(ev.view().paused);
    assert_eq!(ev.take_pending_all_notes_off(), vec![("dev".to_string(), MidiChannel::from_one_based(5).unwrap())]);
    let scene = ev.active_scene().unwrap();
    assert!(scene.is_clip_paused("a"));
}

#[test]
fn pause_with_current_scene_name_fully_pauses() {
    let mut ev = setup_with_single_clip("a", "verse", 7);
    ev.play("verse");
    let result = ev.pause(Some("verse"));
    assert_eq!(result, EvalResult::Paused { target: Some("verse".into()) });
    assert!(ev.view().paused);
    assert_eq!(ev.take_pending_all_notes_off(), vec![("dev".to_string(), MidiChannel::from_one_based(7).unwrap())]);
}

#[test]
fn pause_with_clip_name_pauses_single_clip() {
    let mut ev = setup_two_clips();
    ev.play("verse");
    let result = ev.pause(Some("a"));
    assert_eq!(result, EvalResult::Paused { target: Some("a".into()) });
    assert!(!ev.view().paused);
    let scene = ev.active_scene().unwrap();
    assert!(scene.is_clip_paused("a"));
    assert!(!scene.is_clip_paused("b"));
    assert_eq!(ev.take_pending_all_notes_off(), vec![("dev".to_string(), MidiChannel::from_one_based(2).unwrap())]);
}

#[test]
fn pause_with_unknown_target_is_noop() {
    let mut ev = setup_with_single_clip("a", "verse", 3);
    ev.play("verse");
    let result = ev.pause(Some("ghost"));
    assert!(matches!(result, EvalResult::PausedNoop { .. }));
    assert!(ev.active_scene().is_some());
    assert!(!ev.view().paused);
    assert!(ev.take_pending_all_notes_off().is_empty());
}

#[test]
fn pause_when_stopped_is_noop() {
    let mut ev = Live::new();
    let result = ev.pause(None);
    assert!(matches!(result, EvalResult::PausedNoop { .. }));
    assert!(!ev.view().paused);
}

#[test]
fn resume_none_restores_state_and_resumes_clips() {
    let mut ev = setup_with_single_clip("a", "verse", 5);
    ev.play("verse");
    ev.pause(None);
    let _ = ev.take_pending_all_notes_off();
    let result = ev.resume(None);
    assert_eq!(result, EvalResult::Resumed { target: None });
    assert!(!ev.view().paused);
    let scene = ev.active_scene().unwrap();
    assert!(!scene.is_clip_paused("a"));
}

#[test]
fn resume_with_matching_name_restores_state() {
    let mut ev = setup_with_single_clip("a", "verse", 5);
    ev.play("verse");
    ev.pause(None);
    let result = ev.resume(Some("verse"));
    assert_eq!(result, EvalResult::Resumed { target: Some("verse".into()) });
    assert!(!ev.view().paused);
}

#[test]
fn resume_with_mismatched_name_is_noop() {
    let mut ev = setup_with_single_clip("a", "verse", 5);
    ev.play("verse");
    ev.pause(None);
    let result = ev.resume(Some("chorus"));
    assert!(matches!(result, EvalResult::ResumedNoop { .. }));
    assert!(ev.view().paused);
}

#[test]
fn resume_with_clip_name_resumes_single_clip() {
    let mut ev = setup_two_clips();
    ev.play("verse");
    ev.pause(Some("a"));
    let _ = ev.take_pending_all_notes_off();
    let result = ev.resume(Some("a"));
    assert_eq!(result, EvalResult::Resumed { target: Some("a".into()) });
    let scene = ev.active_scene().unwrap();
    assert!(!scene.is_clip_paused("a"));
}

#[test]
fn resume_when_not_paused_is_noop() {
    let mut ev = setup_with_single_clip("a", "verse", 5);
    ev.play("verse");
    let result = ev.resume(None);
    assert!(matches!(result, EvalResult::ResumedNoop { .. }));
}

#[test]
fn resume_with_unknown_target_is_noop() {
    let mut ev = setup_with_single_clip("a", "verse", 3);
    ev.play("verse");
    let result = ev.resume(Some("ghost"));
    assert!(matches!(result, EvalResult::ResumedNoop { .. }));
}

#[test]
fn noop_reasons_name_the_target() {
    let mut ev = setup_with_single_clip("a", "verse", 3);
    ev.play("verse");
    assert_eq!(ev.mute("ghost"), EvalResult::MutedNoop { reason: "'ghost' is not a clip in active scene".into() });
    assert_eq!(ev.unmute("ghost"), EvalResult::UnmutedNoop { reason: "'ghost' is not a clip in active scene".into() });
    assert_eq!(
        ev.pause(Some("ghost")),
        EvalResult::PausedNoop { reason: "'ghost' is not the current scene/session nor a clip in active scene".into() }
    );
    assert_eq!(
        ev.resume(Some("ghost")),
        EvalResult::ResumedNoop { reason: "'ghost' is not a paused scene/session nor a clip in active scene".into() }
    );
    assert_eq!(ev.resume(None), EvalResult::ResumedNoop { reason: "not paused".into() });
}

#[test]
fn mute_then_unmute_restores_the_scene() {
    let mut ev = setup_two_clips();
    ev.play("verse");
    ev.mute("b");
    assert!(ev.active_scene().unwrap().is_muted("b"));
    ev.unmute("b");
    let scene = ev.active_scene().unwrap();
    assert!(!scene.is_muted("a"));
    assert!(!scene.is_muted("b"));
    assert_eq!(ev.take_pending_all_notes_off(), vec![("dev".to_string(), MidiChannel::from_one_based(9).unwrap())]);
}
