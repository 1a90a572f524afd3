//! Clip compilation: pitched lines, chords, arpeggios, repetitions, bar
//! jumps and beat snaps, drum rows and probability groups, CC automation,
//! the `bars` limit, octave shifts and event order.

use lcvgc::ast::{
    Arpeggio, ArpeggioDirection, Articulation, BarJump, Block, CcAutomation, CcMapping, CcStepValues, CcTarget, CcTimePoint,
    CcTimeSegment, CcTimeValues, CellToken, ClipBody, ClipDef, ClipOptions, DrumClipBody, DrumRow, HitSymbol, InstrumentDef,
    KitDef, KitInstrument, KitInstrumentNote, NoteEvent, PitchedClipBody, PitchedElement, PitchedLine, Repetition,
};
use lcvgc::clock::Clock;
use lcvgc::compiler::compile_clip;
use lcvgc::domain::{ChordSuffix, MidiChannel, NoteName};
use lcvgc::emit::{apply_min_gate_off, emit_arpeggio_cycle, resolve_gate_percent};
use lcvgc::error::EngineError;
use lcvgc::midi::MidiMessage;
use lcvgc::registry::Registry;


fn make_registry_with_bass() -> Registry {
    let mut registry = Registry::default();
    registry.register_block(Block::Instrument(InstrumentDef {
        name: "bass".to_string(),
        device: "dev".to_string(),
        channel: MidiChannel::from_one_based(1).unwrap(),
        note: None,
        gate_normal: Some(80),
        gate_staccato: Some(40),
        velocity_normal: None,
        velocity_accent: None,
        velocity_ghost: None,
        cc_mappings: vec![],
        local_vars: vec![],
        unresolved: Default::default(),
    }));
    registry
}

fn make_pitched_clip(name: &str, bars: Option<u32>, lines: Vec<PitchedLine>) -> ClipDef {
    ClipDef {
        name: name.to_string(),
        options: ClipOptions {
            bars,
            time_sig: None,
            scale: None,
            octave_shift: 0,
        },
        body: ClipBody::Pitched(PitchedClipBody {
            lines,
            cc_automations: vec![],
        }),
    }
}

/// Build a pitched clip with an octave shift, for tests.
fn make_pitched_clip_with_shift(
    name: &str,
    octave_shift: i8,
    lines: Vec<PitchedLine>,
) -> ClipDef {
    ClipDef {
        name: name.to_string(),
        options: ClipOptions {
            bars: None,
            time_sig: None,
            scale: None,
            octave_shift,
        },
        body: ClipBody::Pitched(PitchedClipBody {
            lines,
            cc_automations: vec![],
        }),
    }
}

fn single_note(
    name: NoteName,
    octave: Option<u8>,
    duration: Option<u16>,
    dotted: bool,
) -> PitchedElement {
    PitchedElement::Note(
        NoteEvent::Single {
            name,
            octave,
            duration,
            dotted,
        },
        Articulation::Normal,
        None,
    )
}

#[test]
fn single_note_c4_quarter_at_120bpm() {
    let registry = make_registry_with_bass();
    let clock = Clock::new(120);
    let clip = make_pitched_clip(
        "test",
        None,
        vec![PitchedLine {
            instrument: "bass".to_string(),
            elements: vec![single_note(NoteName::C, Some(4), Some(4), false)],
            is_layer_start: true,
        }],
    );

    let compiled = compile_clip(&clip, &clock, &registry).unwrap();
    assert_eq!(compiled.events.len(), 2);
    assert_eq!(compiled.events[0].tick, 0);
    if let MidiMessage::NoteOn {
        channel,
        note,
        velocity,
    } = compiled.events[0].message
    {
        assert_eq!(channel, MidiChannel::from_zero_based(0).unwrap());
        assert_eq!(note, 60);
        assert_eq!(velocity, 100);
    } else {
        panic!("expected NoteOn");
    }
    // gate_normal=80%, 480ticks * 80% = 384ticks
    assert_eq!(compiled.events[1].tick, 384);
    if let MidiMessage::NoteOff { channel, note, .. } = compiled.events[1].message {
        assert_eq!(channel, MidiChannel::from_zero_based(0).unwrap());
        assert_eq!(note, 60);
    } else {
        panic!("expected NoteOff");
    }
}

#[test]
fn octave_shift_up_raises_note_by_12() {
    let registry = make_registry_with_bass();
    let clock = Clock::new(120);
    let clip = make_pitched_clip_with_shift(
        "test",
        1,
        vec![PitchedLine {
            instrument: "bass".to_string(),
            elements: vec![single_note(NoteName::C, Some(4), Some(4), false)],
            is_layer_start: true,
        }],
    );

    let compiled = compile_clip(&clip, &clock, &registry).unwrap();
    for e in &compiled.events {
        match e.message {
            MidiMessage::NoteOn { note, .. } => assert_eq!(note, 72),
            MidiMessage::NoteOff { note, .. } => assert_eq!(note, 72),
            _ => {}
        }
    }
}

#[test]
fn octave_shift_down_lowers_note_by_12() {
    let registry = make_registry_with_bass();
    let clock = Clock::new(120);
    let clip = make_pitched_clip_with_shift(
        "test",
        -1,
        vec![PitchedLine {
            instrument: "bass".to_string(),
            elements: vec![single_note(NoteName::C, Some(4), Some(4), false)],
            is_layer_start: true,
        }],
    );

    let compiled = compile_clip(&clip, &clock, &registry).unwrap();
    if let MidiMessage::NoteOn { note, .. } = compiled.events[0].message {
        assert_eq!(note, 48);
    } else {
        panic!("expected NoteOn");
    }
}

#[test]
fn octave_shift_up_two_raises_note_by_24() {
    let registry = make_registry_with_bass();
    let clock = Clock::new(120);
    let clip = make_pitched_clip_with_shift(
        "test",
        2,
        vec![PitchedLine {
            instrument: "bass".to_string(),
            elements: vec![single_note(NoteName::C, Some(4), Some(4), false)],
            is_layer_start: true,
        }],
    );

    let compiled = compile_clip(&clip, &clock, &registry).unwrap();
    if let MidiMessage::NoteOn { note, .. } = compiled.events[0].message {
        assert_eq!(note, 84);
    } else {
        panic!("expected NoteOn");
    }
}

#[test]
fn octave_shift_zero_is_noop() {
    let registry = make_registry_with_bass();
    let clock = Clock::new(120);
    let clip = make_pitched_clip_with_shift(
        "test",
        0,
        vec![PitchedLine {
            instrument: "bass".to_string(),
            elements: vec![single_note(NoteName::C, Some(4), Some(4), false)],
            is_layer_start: true,
        }],
    );

    let compiled = compile_clip(&clip, &clock, &registry).unwrap();
    if let MidiMessage::NoteOn { note, .. } = compiled.events[0].message {
        assert_eq!(note, 60);
    } else {
        panic!("expected NoteOn");
    }
}

#[test]
fn octave_shift_out_of_range_is_compile_error() {
    let registry = make_registry_with_bass();
    let clock = Clock::new(120);
    let clip = make_pitched_clip_with_shift(
        "test",
        1,
        vec![PitchedLine {
            instrument: "bass".to_string(),
            elements: vec![single_note(NoteName::C, Some(9), Some(4), false)],
            is_layer_start: true,
        }],
    );

    let result = compile_clip(&clip, &clock, &registry);
    assert!(matches!(result, Err(EngineError::CompileError(_))));
}

#[test]
fn two_notes_carry_forward() {
    let registry = make_registry_with_bass();
    let clock = Clock::new(120);
    let clip = make_pitched_clip(
        "test",
        None,
        vec![PitchedLine {
            instrument: "bass".to_string(),
            elements: vec![
                single_note(NoteName::C, Some(3), Some(8), false),
                single_note(NoteName::Eb, None, None, false),
            ],
            is_layer_start: true,
        }],
    );

    let compiled = compile_clip(&clip, &clock, &registry).unwrap();
    assert_eq!(compiled.events.len(), 4);

    // 2nd note at tick 240 (8th = 240 ticks), Eb3 = 51
    let second_on = compiled
        .events
        .iter()
        .find(|e| e.tick == 240 && matches!(e.message, MidiMessage::NoteOn { .. }));
    assert!(second_on.is_some());
    assert!(matches!(
        second_on.unwrap().message,
        MidiMessage::NoteOn { note: 51, .. }
    ));
}

#[test]
fn rest_advances_position() {
    let registry = make_registry_with_bass();
    let clock = Clock::new(120);
    let clip = make_pitched_clip(
        "test",
        None,
        vec![PitchedLine {
            instrument: "bass".to_string(),
            elements: vec![
                PitchedElement::Note(
                    NoteEvent::Rest {
                        duration: Some(4),
                        dotted: false,
                    },
                    Articulation::Normal,
                    None,
                ),
                single_note(NoteName::C, Some(4), Some(4), false),
            ],
            is_layer_start: true,
        }],
    );

    let compiled = compile_clip(&clip, &clock, &registry).unwrap();
    let note_on = compiled
        .events
        .iter()
        .find(|e| matches!(e.message, MidiMessage::NoteOn { .. }));
    assert_eq!(note_on.unwrap().tick, 480);
}

#[test]
fn staccato_uses_gate_staccato() {
    let registry = make_registry_with_bass();
    let clock = Clock::new(120);
    let clip = make_pitched_clip(
        "test",
        None,
        vec![PitchedLine {
            instrument: "bass".to_string(),
            elements: vec![PitchedElement::Note(
                NoteEvent::Single {
                    name: NoteName::C,
                    octave: Some(4),
                    duration: Some(4),
                    dotted: false,
                },
                Articulation::Staccato,
                None,
            )],
            is_layer_start: true,
        }],
    );

    let compiled = compile_clip(&clip, &clock, &registry).unwrap();
    // gate_staccato=40%, 480*40% = 192
    let note_off = compiled
        .events
        .iter()
        .find(|e| matches!(e.message, MidiMessage::NoteOff { .. }));
    assert_eq!(note_off.unwrap().tick, 192);
}

#[test]
fn gate_direct_percent() {
    let registry = make_registry_with_bass();
    let clock = Clock::new(120);
    let clip = make_pitched_clip(
        "test",
        None,
        vec![PitchedLine {
            instrument: "bass".to_string(),
            elements: vec![PitchedElement::Note(
                NoteEvent::Single {
                    name: NoteName::C,
                    octave: Some(4),
                    duration: Some(4),
                    dotted: false,
                },
                Articulation::GateDirect(95),
                None,
            )],
            is_layer_start: true,
        }],
    );

    let compiled = compile_clip(&clip, &clock, &registry).unwrap();
    // 480 * 95% = 456
    let note_off = compiled
        .events
        .iter()
        .find(|e| matches!(e.message, MidiMessage::NoteOff { .. }));
    assert_eq!(note_off.unwrap().tick, 456);
}

#[test]
fn bars_truncates_events() {
    let registry = make_registry_with_bass();
    let clock = Clock::new(120);
    let clip = make_pitched_clip(
        "test",
        Some(1),
        vec![PitchedLine {
            instrument: "bass".to_string(),
            elements: vec![
                single_note(NoteName::C, Some(4), Some(1), false),
                single_note(NoteName::D, None, None, false),
            ],
            is_layer_start: true,
        }],
    );

    let compiled = compile_clip(&clip, &clock, &registry).unwrap();
    assert_eq!(compiled.total_ticks, 1920);
    let d_events: Vec<_> = compiled
        .events
        .iter()
        .filter(|e| matches!(e.message, MidiMessage::NoteOn { note: 62, .. }))
        .collect();
    assert!(d_events.is_empty());
    assert_eq!(compiled.warnings.len(), 1);
    assert!(compiled.warnings[0].contains("超過"));
}

///
/// When `bars` is unspecified, `total_ticks` must equal the last note's
/// musical-duration end (not the last NoteOff tick + 1). This way a clip
/// of `c:4:4 d e f` (= one bar) ends at exactly 1920 ticks regardless of
/// gate ratio (which only affects NoteOff position, not musical length).
#[test]
fn bars_unspecified_total_ticks_is_logical_end() {
    let registry = make_registry_with_bass();
    let clock = Clock::new(120);
    let clip = make_pitched_clip(
        "test",
        None,
        vec![PitchedLine {
            instrument: "bass".to_string(),
            elements: vec![
                single_note(NoteName::C, Some(4), Some(4), false),
                single_note(NoteName::D, None, None, false),
                single_note(NoteName::E, None, None, false),
                single_note(NoteName::F, None, None, false),
            ],
            is_layer_start: true,
        }],
    );

    let compiled = compile_clip(&clip, &clock, &registry).unwrap();
    assert_eq!(
        compiled.total_ticks, 1920,
        "total_ticks should be musical duration end (1920), not gate-affected NoteOff+1"
    );
}

/// With multiple lines and no bars, total_ticks must be the max of each
/// line's musical end.
#[test]
fn bars_unspecified_multi_line_takes_max_logical_end() {
    let registry = make_registry_with_bass();
    let clock = Clock::new(120);
    // → total_ticks = 1920
    let clip = make_pitched_clip(
        "test",
        None,
        vec![
            PitchedLine {
                instrument: "bass".to_string(),
                elements: vec![single_note(NoteName::C, Some(4), Some(4), false)],
                is_layer_start: true,
            },
            PitchedLine {
                instrument: "bass".to_string(),
                elements: vec![
                    single_note(NoteName::E, Some(4), Some(4), false),
                    single_note(NoteName::G, None, None, false),
                    single_note(NoteName::B, None, None, false),
                    single_note(NoteName::D, None, None, false),
                ],
                is_layer_start: true,
            },
        ],
    );

    let compiled = compile_clip(&clip, &clock, &registry).unwrap();
    assert_eq!(compiled.total_ticks, 1920);
}

#[test]
fn bars_pads_total_ticks() {
    let registry = make_registry_with_bass();
    let clock = Clock::new(120);
    let clip = make_pitched_clip(
        "test",
        Some(2),
        vec![PitchedLine {
            instrument: "bass".to_string(),
            elements: vec![single_note(NoteName::C, Some(4), Some(4), false)],
            is_layer_start: true,
        }],
    );

    let compiled = compile_clip(&clip, &clock, &registry).unwrap();
    assert_eq!(compiled.total_ticks, 3840);
    assert!(compiled.warnings.is_empty());
}

///
/// When a NoteOn falls inside the clip but its NoteOff would be after
/// `max_ticks`, the NoteOff is clamped to `max_ticks - 1` so the played
/// note is always closed. Prevents stuck notes on external MIDI gear.
#[test]
fn bars_overflow_clamps_note_off_when_note_on_inside_clip() {
    let registry = make_registry_with_bass();
    let clock = Clock::new(120);
    let clip = make_pitched_clip(
        "test",
        Some(1),
        vec![PitchedLine {
            instrument: "bass".to_string(),
            elements: vec![
                single_note(NoteName::C, Some(4), Some(4), false),
                single_note(NoteName::D, None, Some(2), false),
                single_note(NoteName::E, None, Some(2), false),
            ],
            is_layer_start: true,
        }],
    );

    let compiled = compile_clip(&clip, &clock, &registry).unwrap();
    assert_eq!(compiled.total_ticks, 1920);

    let e_on = compiled
        .events
        .iter()
        .find(|e| matches!(e.message, MidiMessage::NoteOn { note: 64, .. }))
        .expect("E NoteOn は clip 内なので残るはず");
    assert_eq!(e_on.tick, 1440);

    let e_off = compiled
        .events
        .iter()
        .find(|e| matches!(e.message, MidiMessage::NoteOff { note: 64, .. }))
        .expect("E NoteOff はクランプされて残るはず");
    assert_eq!(
        e_off.tick, 1919,
        "NoteOff は max_ticks - 1 にクランプされる"
    );

    assert!(
        compiled.warnings.iter().any(|w| w.contains("クランプ")),
        "クランプ警告が含まれるべき: {:?}",
        compiled.warnings
    );
}

///
/// When a NoteOn falls outside `max_ticks`, both NoteOn and its NoteOff
/// are dropped — the note never sounds in the first place.
#[test]
fn bars_overflow_drops_pair_when_note_on_outside_clip() {
    let registry = make_registry_with_bass();
    let clock = Clock::new(120);
    let clip = make_pitched_clip(
        "test",
        Some(1),
        vec![PitchedLine {
            instrument: "bass".to_string(),
            elements: vec![
                single_note(NoteName::C, Some(4), Some(1), false),
                single_note(NoteName::D, None, None, false),
            ],
            is_layer_start: true,
        }],
    );

    let compiled = compile_clip(&clip, &clock, &registry).unwrap();
    assert_eq!(compiled.total_ticks, 1920);

    let d_events: Vec<_> = compiled
        .events
        .iter()
        .filter(|e| {
            matches!(
                e.message,
                MidiMessage::NoteOn { note: 62, .. } | MidiMessage::NoteOff { note: 62, .. }
            )
        })
        .collect();
    assert!(
        d_events.is_empty(),
        "D の NoteOn / NoteOff は両方削除される"
    );

    assert!(
        compiled.warnings.iter().any(|w| w.contains("切り捨て")),
        "切り捨て警告が含まれるべき: {:?}",
        compiled.warnings
    );
}

/// When both clamp and drop happen, both warnings are emitted separately.
#[test]
fn bars_overflow_emits_both_warnings_when_mixed() {
    let registry = make_registry_with_bass();
    let clock = Clock::new(120);
    // bars=1 (= 1920 tick).
    let clip = make_pitched_clip(
        "test",
        Some(1),
        vec![PitchedLine {
            instrument: "bass".to_string(),
            elements: vec![
                single_note(NoteName::C, Some(4), Some(4), false),
                single_note(NoteName::D, None, Some(2), false),
                single_note(NoteName::E, None, Some(2), false),
                single_note(NoteName::F, None, Some(4), false),
            ],
            is_layer_start: true,
        }],
    );

    let compiled = compile_clip(&clip, &clock, &registry).unwrap();

    let clamp_warn = compiled.warnings.iter().find(|w| w.contains("クランプ"));
    let drop_warn = compiled.warnings.iter().find(|w| w.contains("切り捨て"));
    assert!(
        clamp_warn.is_some() && drop_warn.is_some(),
        "クランプと切り捨ての warning が両方含まれるべき: {:?}",
        compiled.warnings
    );
}

#[test]
fn dotted_note_duration() {
    let registry = make_registry_with_bass();
    let clock = Clock::new(120);
    let clip = make_pitched_clip(
        "test",
        None,
        vec![PitchedLine {
            instrument: "bass".to_string(),
            elements: vec![single_note(NoteName::C, Some(4), Some(4), true)],
            is_layer_start: true,
        }],
    );

    let compiled = compile_clip(&clip, &clock, &registry).unwrap();
    let note_off = compiled
        .events
        .iter()
        .find(|e| matches!(e.message, MidiMessage::NoteOff { .. }));
    assert_eq!(note_off.unwrap().tick, 576);
}

#[test]
fn unknown_instrument_error() {
    let registry = Registry::default();
    let clock = Clock::new(120);
    let clip = make_pitched_clip(
        "test",
        None,
        vec![PitchedLine {
            instrument: "bass".to_string(),
            elements: vec![],
            is_layer_start: true,
        }],
    );

    let result = compile_clip(&clip, &clock, &registry);
    assert!(result.is_err());
}

#[test]
fn drum_clip_basic() {
    let mut registry = Registry::default();
    registry.register_block(Block::Kit(KitDef {
        name: "tr808".to_string(),
        device: "dev".to_string(),
        instruments: vec![KitInstrument {
            name: "bd".to_string(),
            channel: MidiChannel::from_one_based(10).unwrap(),
            note: KitInstrumentNote {
                name: NoteName::C,
                octave: 2,
            },
            gate_normal: Some(50),
            gate_staccato: Some(20),
            velocity_normal: None,
            velocity_accent: None,
            velocity_ghost: None,
            unresolved: Default::default(),
        }],
    }));

    let clock = Clock::new(120);
    let clip = ClipDef {
        name: "drums".to_string(),
        options: ClipOptions {
            bars: None,
            time_sig: None,
            scale: None,
            octave_shift: 0,
        },
        body: ClipBody::Drum(DrumClipBody {
            kit: "tr808".to_string(),
            resolution: 16,
            rows: vec![DrumRow {
                instrument: "bd".to_string(),
                hits: vec![
                    HitSymbol::Normal,
                    HitSymbol::Rest,
                    HitSymbol::Rest,
                    HitSymbol::Rest,
                    HitSymbol::Normal,
                    HitSymbol::Rest,
                    HitSymbol::Rest,
                    HitSymbol::Rest,
                ],
                probability: None,
            }],
            cc_automations: vec![],
        }),
    };

    let compiled = compile_clip(&clip, &clock, &registry).unwrap();
    assert_eq!(compiled.events.len(), 4);
    if let MidiMessage::NoteOn {
        channel,
        note,
        velocity,
    } = compiled.events[0].message
    {
        assert_eq!(channel, MidiChannel::from_zero_based(9).unwrap());
        assert_eq!(note, 36);
        assert_eq!(velocity, 100);
    } else {
        panic!("expected NoteOn");
    }
    // 2nd hit at step 4, 16th = 120 ticks → tick 480
    let second_on = compiled
        .events
        .iter()
        .find(|e| e.tick > 0 && matches!(e.message, MidiMessage::NoteOn { .. }));
    assert_eq!(second_on.unwrap().tick, 480);
}

#[test]
fn drum_accent_velocity() {
    let mut registry = Registry::default();
    registry.register_block(Block::Kit(KitDef {
        name: "kit".to_string(),
        device: "dev".to_string(),
        instruments: vec![KitInstrument {
            name: "sn".to_string(),
            channel: MidiChannel::from_one_based(10).unwrap(),
            note: KitInstrumentNote {
                name: NoteName::D,
                octave: 2,
            },
            gate_normal: Some(50),
            gate_staccato: None,
            velocity_normal: None,
            velocity_accent: None,
            velocity_ghost: None,
            unresolved: Default::default(),
        }],
    }));

    let clock = Clock::new(120);
    let clip = ClipDef {
        name: "d".to_string(),
        options: ClipOptions::default(),
        body: ClipBody::Drum(DrumClipBody {
            kit: "kit".to_string(),
            resolution: 16,
            rows: vec![DrumRow {
                instrument: "sn".to_string(),
                hits: vec![HitSymbol::Accent, HitSymbol::GhostNote],
                probability: None,
            }],
            cc_automations: vec![],
        }),
    };

    let compiled = compile_clip(&clip, &clock, &registry).unwrap();
    assert!(matches!(
        compiled.events[0].message,
        MidiMessage::NoteOn { velocity: 127, .. }
    ));
    let ghost_on = compiled
        .events
        .iter()
        .find(|e| matches!(e.message, MidiMessage::NoteOn { velocity: 40, .. }));
    assert!(ghost_on.is_some());
}

/// Per-instrument velocity_normal/accent/ghost override the HitSymbol defaults (drums).
#[test]
fn drum_velocity_overrides_hit_symbol_defaults() {
    let mut registry = Registry::default();
    registry.register_block(Block::Kit(KitDef {
        name: "kit".to_string(),
        device: "dev".to_string(),
        instruments: vec![KitInstrument {
            name: "sn".to_string(),
            channel: MidiChannel::from_one_based(10).unwrap(),
            note: KitInstrumentNote {
                name: NoteName::D,
                octave: 2,
            },
            gate_normal: Some(50),
            gate_staccato: None,
            velocity_normal: Some(90),
            velocity_accent: Some(120),
            velocity_ghost: Some(30),
            unresolved: Default::default(),
        }],
    }));

    let clock = Clock::new(120);
    let clip = ClipDef {
        name: "d".to_string(),
        options: ClipOptions::default(),
        body: ClipBody::Drum(DrumClipBody {
            kit: "kit".to_string(),
            resolution: 16,
            rows: vec![DrumRow {
                instrument: "sn".to_string(),
                hits: vec![HitSymbol::Normal, HitSymbol::Accent, HitSymbol::GhostNote],
                probability: None,
            }],
            cc_automations: vec![],
        }),
    };

    let compiled = compile_clip(&clip, &clock, &registry).unwrap();
    for expected in [90u8, 120, 30] {
        assert!(
            compiled.events.iter().any(|e| matches!(
                e.message,
                MidiMessage::NoteOn { velocity, .. } if velocity == expected
            )),
            "velocity {} の NoteOn が見つからない",
            expected
        );
    }
}

/// velocity_normal sets the default velocity for pitched notes without a `vN` suffix.
#[test]
fn pitched_velocity_normal_sets_default() {
    let mut registry = Registry::default();
    registry.register_block(Block::Instrument(InstrumentDef {
        name: "bass".to_string(),
        device: "dev".to_string(),
        channel: MidiChannel::from_one_based(1).unwrap(),
        note: None,
        gate_normal: Some(80),
        gate_staccato: Some(40),
        velocity_normal: Some(70),
        velocity_accent: None,
        velocity_ghost: None,
        cc_mappings: vec![],
        local_vars: vec![],
        unresolved: Default::default(),
    }));

    let clock = Clock::new(120);
    let clip = make_pitched_clip(
        "test",
        None,
        vec![PitchedLine {
            instrument: "bass".to_string(),
            elements: vec![single_note(NoteName::C, Some(4), Some(4), false)],
            is_layer_start: true,
        }],
    );

    let compiled = compile_clip(&clip, &clock, &registry).unwrap();
    assert!(matches!(
        compiled.events[0].message,
        MidiMessage::NoteOn { velocity: 70, .. }
    ));
}

/// When velocity_normal is unset, the legacy default of 100 still applies.
#[test]
fn pitched_velocity_normal_defaults_to_100() {
    let registry = make_registry_with_bass();
    let clock = Clock::new(120);
    let clip = make_pitched_clip(
        "test",
        None,
        vec![PitchedLine {
            instrument: "bass".to_string(),
            elements: vec![single_note(NoteName::C, Some(4), Some(4), false)],
            is_layer_start: true,
        }],
    );

    let compiled = compile_clip(&clip, &clock, &registry).unwrap();
    assert!(matches!(
        compiled.events[0].message,
        MidiMessage::NoteOn { velocity: 100, .. }
    ));
}

/// An explicit `vN` suffix takes precedence over velocity_normal.
#[test]
fn pitched_vn_overrides_velocity_normal() {
    let mut registry = Registry::default();
    registry.register_block(Block::Instrument(InstrumentDef {
        name: "bass".to_string(),
        device: "dev".to_string(),
        channel: MidiChannel::from_one_based(1).unwrap(),
        note: None,
        gate_normal: Some(80),
        gate_staccato: Some(40),
        velocity_normal: Some(70),
        velocity_accent: None,
        velocity_ghost: None,
        cc_mappings: vec![],
        local_vars: vec![],
        unresolved: Default::default(),
    }));

    let clock = Clock::new(120);
    let note = PitchedElement::Note(
        NoteEvent::Single {
            name: NoteName::C,
            octave: Some(4),
            duration: Some(4),
            dotted: false,
        },
        Articulation::Normal,
        Some(127),
    );
    let clip = make_pitched_clip(
        "test",
        None,
        vec![PitchedLine {
            instrument: "bass".to_string(),
            elements: vec![note],
            is_layer_start: true,
        }],
    );

    let compiled = compile_clip(&clip, &clock, &registry).unwrap();
    assert!(matches!(
        compiled.events[0].message,
        MidiMessage::NoteOn { velocity: 127, .. }
    ));
}

/// Drum clips with a probability row produce drum_mask_groups.
#[test]
fn compile_drum_builds_probability_groups() {
    let mut registry = Registry::default();
    registry.register_block(Block::Kit(KitDef {
        name: "kit".to_string(),
        device: "dev".to_string(),
        instruments: vec![KitInstrument {
            name: "hh".to_string(),
            channel: MidiChannel::from_one_based(10).unwrap(),
            note: KitInstrumentNote {
                name: NoteName::Fs,
                octave: 2,
            },
            gate_normal: Some(50),
            gate_staccato: None,
            velocity_normal: None,
            velocity_accent: None,
            velocity_ghost: None,
            unresolved: Default::default(),
        }],
    }));

    let clock = Clock::new(120);
    let clip = ClipDef {
        name: "drums".to_string(),
        options: ClipOptions::default(),
        body: ClipBody::Drum(DrumClipBody {
            kit: "kit".to_string(),
            resolution: 16,
            rows: vec![DrumRow {
                instrument: "hh".to_string(),
                // step0: `.` (=100), step1: `5` (=50), step2: `0` (=0), step3: `9` (=90)
                hits: vec![
                    HitSymbol::Normal,
                    HitSymbol::Normal,
                    HitSymbol::Normal,
                    HitSymbol::Normal,
                ],
                probability: Some(vec![100, 50, 0, 90]),
            }],
            cc_automations: vec![],
        }),
    };

    let compiled = compile_clip(&clip, &clock, &registry).unwrap();
    // 4 hits → 8 events (NoteOn + NoteOff each)
    assert_eq!(compiled.events.len(), 8);
    // 100% step is excluded, so 3 groups
    assert_eq!(compiled.drum_mask_groups.len(), 3);

    let probs: Vec<u8> = compiled
        .drum_mask_groups
        .iter()
        .map(|g| g.probability)
        .collect();
    assert_eq!(probs, vec![50, 0, 90]);

    // Each group must reference exactly two events (NoteOn + NoteOff)
    for g in &compiled.drum_mask_groups {
        assert_eq!(g.event_indices.len(), 2);
    }
}

/// Drum clips without a probability row produce no probability groups.
#[test]
fn compile_drum_no_probability_no_groups() {
    let mut registry = Registry::default();
    registry.register_block(Block::Kit(KitDef {
        name: "kit".to_string(),
        device: "dev".to_string(),
        instruments: vec![KitInstrument {
            name: "bd".to_string(),
            channel: MidiChannel::from_one_based(10).unwrap(),
            note: KitInstrumentNote {
                name: NoteName::C,
                octave: 2,
            },
            gate_normal: Some(50),
            gate_staccato: None,
            velocity_normal: None,
            velocity_accent: None,
            velocity_ghost: None,
            unresolved: Default::default(),
        }],
    }));

    let clock = Clock::new(120);
    let clip = ClipDef {
        name: "drums".to_string(),
        options: ClipOptions::default(),
        body: ClipBody::Drum(DrumClipBody {
            kit: "kit".to_string(),
            resolution: 16,
            rows: vec![DrumRow {
                instrument: "bd".to_string(),
                hits: vec![HitSymbol::Normal, HitSymbol::Normal],
                probability: None,
            }],
            cc_automations: vec![],
        }),
    };

    let compiled = compile_clip(&clip, &clock, &registry).unwrap();
    assert!(compiled.drum_mask_groups.is_empty());
}

#[test]
fn events_sorted_note_on_before_off() {
    let mut registry = Registry::default();
    registry.register_block(Block::Instrument(InstrumentDef {
        name: "pad".to_string(),
        device: "dev".to_string(),
        channel: MidiChannel::from_one_based(3).unwrap(),
        note: None,
        gate_normal: Some(100),
        gate_staccato: Some(60),
        velocity_normal: None,
        velocity_accent: None,
        velocity_ghost: None,
        cc_mappings: vec![],
        local_vars: vec![],
        unresolved: Default::default(),
    }));

    let clip = ClipDef {
        name: "test".to_string(),
        options: ClipOptions::default(),
        body: ClipBody::Pitched(PitchedClipBody {
            lines: vec![PitchedLine {
                instrument: "pad".to_string(),
                elements: vec![
                    single_note(NoteName::C, Some(4), Some(4), false),
                    single_note(NoteName::D, None, None, false),
                ],
                is_layer_start: true,
            }],
            cc_automations: vec![],
        }),
    };

    let compiled = compile_clip(&clip, &Clock::new(120), &registry).unwrap();
    let at_480: Vec<_> = compiled.events.iter().filter(|e| e.tick == 480).collect();
    if at_480.len() == 2 {
        assert!(matches!(at_480[0].message, MidiMessage::NoteOn { .. }));
        assert!(matches!(at_480[1].message, MidiMessage::NoteOff { .. }));
    }
}

#[test]
fn bar_jump_sets_position() {
    let registry = make_registry_with_bass();
    let clock = Clock::new(120);
    let clip = make_pitched_clip(
        "test",
        Some(4),
        vec![PitchedLine {
            instrument: "bass".to_string(),
            elements: vec![
                single_note(NoteName::C, Some(4), Some(1), false),
                PitchedElement::BarJump(BarJump { bar_number: 3 }),
                single_note(NoteName::E, None, Some(4), false),
            ],
            is_layer_start: true,
        }],
    );

    let compiled = compile_clip(&clip, &clock, &registry).unwrap();
    let e_on = compiled
        .events
        .iter()
        .find(|e| matches!(e.message, MidiMessage::NoteOn { note: 64, .. }));
    assert_eq!(e_on.unwrap().tick, 3840);
}

/// Verify that >5 with bars=4 returns an error
#[test]
fn bar_jump_out_of_range_error() {
    let registry = make_registry_with_bass();
    let clock = Clock::new(120);
    let clip = make_pitched_clip(
        "test",
        Some(4),
        vec![PitchedLine {
            instrument: "bass".to_string(),
            elements: vec![
                single_note(NoteName::C, Some(4), Some(4), false),
                PitchedElement::BarJump(BarJump { bar_number: 5 }),
                single_note(NoteName::E, None, Some(4), false),
            ],
            is_layer_start: true,
        }],
    );

    let result = compile_clip(&clip, &clock, &registry);
    assert!(result.is_err());
    let err = result.unwrap_err();
    assert!(err.to_string().contains("範囲外"));
}

/// Verify that >4 with bars=4 is valid
#[test]
fn bar_jump_at_boundary_ok() {
    let registry = make_registry_with_bass();
    let clock = Clock::new(120);
    let clip = make_pitched_clip(
        "test",
        Some(4),
        vec![PitchedLine {
            instrument: "bass".to_string(),
            elements: vec![
                single_note(NoteName::C, Some(4), Some(4), false),
                PitchedElement::BarJump(BarJump { bar_number: 4 }),
                single_note(NoteName::E, None, Some(4), false),
            ],
            is_layer_start: true,
        }],
    );

    let result = compile_clip(&clip, &clock, &registry);
    assert!(result.is_ok());
}

/// Verify that >N without bars is always valid
#[test]
fn bar_jump_no_bars_always_ok() {
    let registry = make_registry_with_bass();
    let clock = Clock::new(120);
    let clip = make_pitched_clip(
        "test",
        None,
        vec![PitchedLine {
            instrument: "bass".to_string(),
            elements: vec![
                single_note(NoteName::C, Some(4), Some(4), false),
                PitchedElement::BarJump(BarJump { bar_number: 100 }),
                single_note(NoteName::E, None, Some(4), false),
            ],
            is_layer_start: true,
        }],
    );

    let result = compile_clip(&clip, &clock, &registry);
    assert!(result.is_ok());
}

// ============================================================
// PipeSnap (`|` beat-boundary snap) tests.
// ============================================================

/// `|` after exactly one beat is a no-op.
#[test]
fn pipe_snap_exact_beat_is_noop() {
    let registry = make_registry_with_bass();
    let clock = Clock::new(120);
    let clip = make_pitched_clip(
        "test",
        None,
        vec![PitchedLine {
            instrument: "bass".to_string(),
            elements: vec![
                single_note(NoteName::C, Some(3), Some(8), false),
                single_note(NoteName::C, None, None, false),
                PitchedElement::PipeSnap,
            ],
            is_layer_start: true,
        }],
    );

    let compiled = compile_clip(&clip, &clock, &registry).unwrap();
    let note_ons: Vec<_> = compiled
        .events
        .iter()
        .filter(|e| matches!(e.message, MidiMessage::NoteOn { .. }))
        .collect();
    assert_eq!(note_ons.len(), 2);
    assert_eq!(note_ons[0].tick, 0);
    assert_eq!(note_ons[1].tick, 240);
}

/// `|` after only half a beat pads to the next beat boundary.
#[test]
fn pipe_snap_pads_short_to_next_beat() {
    let registry = make_registry_with_bass();
    let clock = Clock::new(120);
    let clip = make_pitched_clip(
        "test",
        None,
        vec![PitchedLine {
            instrument: "bass".to_string(),
            elements: vec![
                single_note(NoteName::C, Some(3), Some(8), false),
                PitchedElement::PipeSnap,
                single_note(NoteName::C, None, None, false),
            ],
            is_layer_start: true,
        }],
    );

    let compiled = compile_clip(&clip, &clock, &registry).unwrap();
    let note_ons: Vec<_> = compiled
        .events
        .iter()
        .filter(|e| matches!(e.message, MidiMessage::NoteOn { .. }))
        .collect();
    assert_eq!(note_ons.len(), 2);
    assert_eq!(note_ons[0].tick, 0);
    assert_eq!(note_ons[1].tick, 480);
}

/// `|` after 5 eighth notes (1.25 beats) truncates the 5th note.
#[test]
fn pipe_snap_truncates_overrun_to_previous_beat() {
    let registry = make_registry_with_bass();
    let clock = Clock::new(120);
    let clip = make_pitched_clip(
        "test",
        None,
        vec![PitchedLine {
            instrument: "bass".to_string(),
            elements: vec![
                single_note(NoteName::C, Some(3), Some(8), false),
                single_note(NoteName::C, None, None, false),
                single_note(NoteName::C, None, None, false),
                single_note(NoteName::C, None, None, false),
                single_note(NoteName::C, None, None, false),
                PitchedElement::PipeSnap,
            ],
            is_layer_start: true,
        }],
    );

    let compiled = compile_clip(&clip, &clock, &registry).unwrap();
    let note_ons: Vec<_> = compiled
        .events
        .iter()
        .filter(|e| matches!(e.message, MidiMessage::NoteOn { .. }))
        .collect();
    // 5th note is truncated, 4 notes remain
    assert_eq!(note_ons.len(), 4);
}

/// Verifies exact tick ordering after pipe-snap truncate.
#[test]
fn pipe_snap_truncate_keeps_first_beat_notes() {
    let registry = make_registry_with_bass();
    let clock = Clock::new(120);
    let clip = make_pitched_clip(
        "test",
        None,
        vec![PitchedLine {
            instrument: "bass".to_string(),
            elements: vec![
                single_note(NoteName::C, Some(3), Some(8), false),
                single_note(NoteName::C, None, None, false),
                single_note(NoteName::C, None, None, false),
                single_note(NoteName::C, None, None, false),
                single_note(NoteName::C, None, None, false),
                PitchedElement::PipeSnap,
            ],
            is_layer_start: true,
        }],
    );

    let compiled = compile_clip(&clip, &clock, &registry).unwrap();
    let mut note_on_ticks: Vec<u64> = compiled
        .events
        .iter()
        .filter(|e| matches!(e.message, MidiMessage::NoteOn { .. }))
        .map(|e| e.tick)
        .collect();
    note_on_ticks.sort();
    //
    assert_eq!(note_on_ticks, vec![0, 240, 480, 720]);
}

/// Multiple `|` segments are evaluated independently.
#[test]
fn pipe_snap_multiple_segments_are_independent() {
    let registry = make_registry_with_bass();
    let clock = Clock::new(120);
    let clip = make_pitched_clip(
        "test",
        None,
        vec![PitchedLine {
            instrument: "bass".to_string(),
            elements: vec![
                single_note(NoteName::C, Some(3), Some(8), false),
                PitchedElement::PipeSnap,
                single_note(NoteName::C, None, None, false),
                single_note(NoteName::C, None, None, false),
                single_note(NoteName::C, None, None, false),
                single_note(NoteName::C, None, None, false),
                single_note(NoteName::C, None, None, false),
                PitchedElement::PipeSnap,
            ],
            is_layer_start: true,
        }],
    );

    let compiled = compile_clip(&clip, &clock, &registry).unwrap();
    let mut note_on_ticks: Vec<u64> = compiled
        .events
        .iter()
        .filter(|e| matches!(e.message, MidiMessage::NoteOn { .. }))
        .map(|e| e.tick)
        .collect();
    note_on_ticks.sort();
    assert_eq!(note_on_ticks, vec![0, 480, 720, 960, 1200]);
}

#[test]
fn resolve_gate_percent_normal() {
    assert_eq!(resolve_gate_percent(&Articulation::Normal, 80, 40), 80);
}

#[test]
fn resolve_gate_percent_staccato() {
    assert_eq!(resolve_gate_percent(&Articulation::Staccato, 80, 40), 40);
}

#[test]
fn resolve_gate_percent_direct() {
    assert_eq!(
        resolve_gate_percent(&Articulation::GateDirect(95), 80, 40),
        95
    );
}

#[test]
fn repetition_pitched_basic() {
    let registry = make_registry_with_bass();
    let clock = Clock::new(120);
    let clip = make_pitched_clip(
        "test",
        None,
        vec![PitchedLine {
            instrument: "bass".to_string(),
            elements: vec![PitchedElement::Repetition(
                Repetition {
                    content: vec![
                    single_note(NoteName::C, Some(3), Some(8), false),
                    single_note(NoteName::C, None, None, false),
                    single_note(NoteName::Eb, None, None, false),
                ],
                    count: 4,
                },
            )],
            is_layer_start: true,
        }],
    );

    let compiled = compile_clip(&clip, &clock, &registry).unwrap();
    // 3 notes * 4 reps = 12 notes = 24 events (NoteOn + NoteOff)
    let note_on_count = compiled
        .events
        .iter()
        .filter(|e| matches!(e.message, MidiMessage::NoteOn { .. }))
        .count();
    assert_eq!(note_on_count, 12);
}

#[test]
fn repetition_carries_octave_and_duration() {
    let registry = make_registry_with_bass();
    let clock = Clock::new(120);
    let clip = make_pitched_clip(
        "test",
        None,
        vec![PitchedLine {
            instrument: "bass".to_string(),
            elements: vec![PitchedElement::Repetition(
                Repetition {
                    content: vec![single_note(NoteName::C, Some(3), Some(8), false)],
                    count: 2,
                },
            )],
            is_layer_start: true,
        }],
    );

    let compiled = compile_clip(&clip, &clock, &registry).unwrap();
    let note_ons: Vec<_> = compiled
        .events
        .iter()
        .filter(|e| matches!(e.message, MidiMessage::NoteOn { .. }))
        .collect();
    assert_eq!(note_ons.len(), 2);
    for ev in &note_ons {
        assert!(matches!(ev.message, MidiMessage::NoteOn { note: 48, .. }));
    }
    // 2nd note at tick 240 (8th note = 240 ticks)
    assert_eq!(note_ons[1].tick, 240);
}


/// Cm7:4:2 → 4 notes (C4=60, Eb4=63, G4=67, Bb4=70), gate 80%
#[test]
fn chord_name_cm7_basic() {
    let registry = make_registry_with_bass();
    let clock = Clock::new(120);
    let clip = make_pitched_clip(
        "test",
        None,
        vec![PitchedLine {
            instrument: "bass".to_string(),
            elements: vec![PitchedElement::Note(
                NoteEvent::ChordName {
                    root: NoteName::C,
                    suffix: ChordSuffix::Min7,
                    octave: Some(4),
                    duration: Some(2),
                    dotted: false,
                    arpeggio: None,
                },
                Articulation::Normal,
                None,
            )],
            is_layer_start: true,
        }],
    );

    let compiled = compile_clip(&clip, &clock, &registry).unwrap();
    let note_ons: Vec<_> = compiled
        .events
        .iter()
        .filter(|e| matches!(e.message, MidiMessage::NoteOn { .. }))
        .collect();
    assert_eq!(note_ons.len(), 4);
    let notes: Vec<u8> = note_ons
        .iter()
        .map(|e| match e.message {
            MidiMessage::NoteOn { note, .. } => note,
            _ => unreachable!(),
        })
        .collect();
    assert_eq!(notes, vec![60, 63, 67, 70]);

    assert!(note_ons.iter().all(|e| e.tick == 0));

    let note_offs: Vec<_> = compiled
        .events
        .iter()
        .filter(|e| matches!(e.message, MidiMessage::NoteOff { .. }))
        .collect();
    assert_eq!(note_offs.len(), 4);
    assert!(note_offs.iter().all(|e| e.tick == 768));
}

/// Verify octave/duration carry forward
#[test]
fn chord_name_carry_forward() {
    let registry = make_registry_with_bass();
    let clock = Clock::new(120);
    // ChordName(oct=3, dur=8) → Single(oct=None, dur=None)
    let clip = make_pitched_clip(
        "test",
        None,
        vec![PitchedLine {
            instrument: "bass".to_string(),
            elements: vec![
                PitchedElement::Note(
                    NoteEvent::ChordName {
                        root: NoteName::C,
                        suffix: ChordSuffix::Maj,
                        octave: Some(3),
                        duration: Some(8),
                        dotted: false,
                        arpeggio: None,
                    },
                    Articulation::Normal,
                    None,
                ),
                single_note(NoteName::E, None, None, false),
            ],
            is_layer_start: true,
        }],
    );

    let compiled = compile_clip(&clip, &clock, &registry).unwrap();
    let note_ons: Vec<_> = compiled
        .events
        .iter()
        .filter(|e| matches!(e.message, MidiMessage::NoteOn { .. }))
        .collect();
    assert_eq!(note_ons.len(), 4);

    let e_note = note_ons.last().unwrap();
    assert!(matches!(
        e_note.message,
        MidiMessage::NoteOn { note: 52, .. }
    ));
    assert_eq!(e_note.tick, 240);
}

/// Verify gate 40% with staccato articulation
#[test]
fn chord_name_staccato() {
    let registry = make_registry_with_bass();
    let clock = Clock::new(120);
    let clip = make_pitched_clip(
        "test",
        None,
        vec![PitchedLine {
            instrument: "bass".to_string(),
            elements: vec![PitchedElement::Note(
                NoteEvent::ChordName {
                    root: NoteName::C,
                    suffix: ChordSuffix::Maj,
                    octave: Some(4),
                    duration: Some(4),
                    dotted: false,
                    arpeggio: None,
                },
                Articulation::Staccato,
                None,
            )],
            is_layer_start: true,
        }],
    );

    let compiled = compile_clip(&clip, &clock, &registry).unwrap();
    // gate_staccato=40%, 480*40%=192
    let note_offs: Vec<_> = compiled
        .events
        .iter()
        .filter(|e| matches!(e.message, MidiMessage::NoteOff { .. }))
        .collect();
    assert!(note_offs.iter().all(|e| e.tick == 192));
}

/// Verify chord name usage inside repetition
#[test]
fn chord_name_in_repetition() {
    let registry = make_registry_with_bass();
    let clock = Clock::new(120);
    let clip = make_pitched_clip(
        "test",
        None,
        vec![PitchedLine {
            instrument: "bass".to_string(),
            elements: vec![PitchedElement::Repetition(
                Repetition {
                    content: vec![PitchedElement::Note(
                    NoteEvent::ChordName {
                        root: NoteName::C,
                        suffix: ChordSuffix::Min7,
                        octave: Some(4),
                        duration: Some(4),
                        dotted: false,
                        arpeggio: None,
                    },
                    Articulation::Normal,
                    None,
                )],
                    count: 2,
                },
            )],
            is_layer_start: true,
        }],
    );

    let compiled = compile_clip(&clip, &clock, &registry).unwrap();
    let note_on_count = compiled
        .events
        .iter()
        .filter(|e| matches!(e.message, MidiMessage::NoteOn { .. }))
        .count();
    assert_eq!(note_on_count, 8);

    let second_round: Vec<_> = compiled
        .events
        .iter()
        .filter(|e| e.tick == 480 && matches!(e.message, MidiMessage::NoteOn { .. }))
        .collect();
    assert_eq!(second_round.len(), 4);
}


/// [c:4 eb g bb]:2 → 4 simultaneous notes, gate 80%
#[test]
fn chord_bracket_basic() {
    let registry = make_registry_with_bass();
    let clock = Clock::new(120);
    let clip = make_pitched_clip(
        "test",
        None,
        vec![PitchedLine {
            instrument: "bass".to_string(),
            elements: vec![PitchedElement::ChordBracket {
                notes: vec![
                    (NoteName::C, Some(4)),
                    (NoteName::Eb, None),
                    (NoteName::G, None),
                    (NoteName::Bb, None),
                ],
                duration: Some(2),
                dotted: false,
                articulation: Articulation::Normal,
                arpeggio: None,
                velocity: None,
            }],
            is_layer_start: true,
        }],
    );

    let compiled = compile_clip(&clip, &clock, &registry).unwrap();
    let note_ons: Vec<_> = compiled
        .events
        .iter()
        .filter(|e| matches!(e.message, MidiMessage::NoteOn { .. }))
        .collect();
    assert_eq!(note_ons.len(), 4);

    let notes: Vec<u8> = note_ons
        .iter()
        .map(|e| match e.message {
            MidiMessage::NoteOn { note, .. } => note,
            _ => unreachable!(),
        })
        .collect();
    // C4=60, Eb4=63, G4=67, Bb4=70
    assert_eq!(notes, vec![60, 63, 67, 70]);

    assert!(note_ons.iter().all(|e| e.tick == 0));

    let note_offs: Vec<_> = compiled
        .events
        .iter()
        .filter(|e| matches!(e.message, MidiMessage::NoteOff { .. }))
        .collect();
    assert_eq!(note_offs.len(), 4);
    assert!(note_offs.iter().all(|e| e.tick == 768));
}

/// Verify gate 40% with staccato articulation on chord bracket
#[test]
fn chord_bracket_staccato() {
    let registry = make_registry_with_bass();
    let clock = Clock::new(120);
    let clip = make_pitched_clip(
        "test",
        None,
        vec![PitchedLine {
            instrument: "bass".to_string(),
            elements: vec![PitchedElement::ChordBracket {
                notes: vec![
                    (NoteName::C, Some(4)),
                    (NoteName::E, None),
                    (NoteName::G, None),
                ],
                duration: Some(4),
                dotted: false,
                articulation: Articulation::Staccato,
                arpeggio: None,
                velocity: None,
            }],
            is_layer_start: true,
        }],
    );

    let compiled = compile_clip(&clip, &clock, &registry).unwrap();
    // gate_staccato=40%, 480*40%=192
    let note_offs: Vec<_> = compiled
        .events
        .iter()
        .filter(|e| matches!(e.message, MidiMessage::NoteOff { .. }))
        .collect();
    assert!(note_offs.iter().all(|e| e.tick == 192));
}

/// Verify duration carry forward from chord bracket
#[test]
fn chord_bracket_carry_forward() {
    let registry = make_registry_with_bass();
    let clock = Clock::new(120);
    let clip = make_pitched_clip(
        "test",
        None,
        vec![PitchedLine {
            instrument: "bass".to_string(),
            elements: vec![
                PitchedElement::ChordBracket {
                    notes: vec![(NoteName::C, Some(3)), (NoteName::E, None)],
                    duration: Some(8),
                    dotted: false,
                    articulation: Articulation::Normal,
                    arpeggio: None,
                    velocity: None,
                },
                single_note(NoteName::G, None, None, false),
            ],
            is_layer_start: true,
        }],
    );

    let compiled = compile_clip(&clip, &clock, &registry).unwrap();
    let note_ons: Vec<_> = compiled
        .events
        .iter()
        .filter(|e| matches!(e.message, MidiMessage::NoteOn { .. }))
        .collect();
    assert_eq!(note_ons.len(), 3);

    let g_note = note_ons.last().unwrap();
    assert_eq!(g_note.tick, 240);
}

/// Verify individual octave specification in chord bracket
#[test]
fn chord_bracket_individual_octave() {
    let registry = make_registry_with_bass();
    let clock = Clock::new(120);
    let clip = make_pitched_clip(
        "test",
        None,
        vec![PitchedLine {
            instrument: "bass".to_string(),
            elements: vec![PitchedElement::ChordBracket {
                notes: vec![
                    (NoteName::C, Some(3)),
                    (NoteName::E, Some(5)),
                    (NoteName::G, Some(4)),
                ],
                duration: Some(4),
                dotted: false,
                articulation: Articulation::Normal,
                arpeggio: None,
                velocity: None,
            }],
            is_layer_start: true,
        }],
    );

    let compiled = compile_clip(&clip, &clock, &registry).unwrap();
    let notes: Vec<u8> = compiled
        .events
        .iter()
        .filter_map(|e| match e.message {
            MidiMessage::NoteOn { note, .. } => Some(note),
            _ => None,
        })
        .collect();
    // C3=48, E5=76, G4=67
    assert_eq!(notes, vec![48, 76, 67]);
}


/// `arp(up, 16)` should sequence chord tones in ascending pitch order at 16th-note intervals.
#[test]
fn chord_bracket_arpeggio_up_uses_resolution() {
    let registry = make_registry_with_bass();
    let clock = Clock::new(120);
    // [c:4 eb:4 g:4 bb:4]:1 arp(up, 16)
    let clip = make_pitched_clip(
        "test",
        None,
        vec![PitchedLine {
            instrument: "bass".to_string(),
            elements: vec![PitchedElement::ChordBracket {
                notes: vec![
                    (NoteName::C, Some(4)),
                    (NoteName::Eb, None),
                    (NoteName::G, None),
                    (NoteName::Bb, None),
                ],
                duration: Some(1),
                dotted: false,
                articulation: Articulation::Normal,
                arpeggio: Some(Arpeggio {
                    direction: ArpeggioDirection::Up,
                    resolution: Some(16),
                }),
                velocity: None,
            }],
            is_layer_start: true,
        }],
    );

    let compiled = compile_clip(&clip, &clock, &registry).unwrap();
    let note_ons: Vec<_> = compiled
        .events
        .iter()
        .filter(|e| matches!(e.message, MidiMessage::NoteOn { .. }))
        .collect();
    assert_eq!(note_ons.len(), 4);
    let ticks: Vec<u64> = note_ons.iter().map(|e| e.tick).collect();
    assert_eq!(ticks, vec![0, 120, 240, 360]);
    let notes: Vec<u8> = note_ons
        .iter()
        .map(|e| match e.message {
            MidiMessage::NoteOn { note, .. } => note,
            _ => unreachable!(),
        })
        .collect();
    assert_eq!(notes, vec![60, 63, 67, 70]);
}

/// `arp(down, 16)` should sequence chord tones in descending pitch order.
#[test]
fn chord_bracket_arpeggio_down() {
    let registry = make_registry_with_bass();
    let clock = Clock::new(120);
    let clip = make_pitched_clip(
        "test",
        None,
        vec![PitchedLine {
            instrument: "bass".to_string(),
            elements: vec![PitchedElement::ChordBracket {
                notes: vec![
                    (NoteName::C, Some(4)),
                    (NoteName::E, None),
                    (NoteName::G, None),
                ],
                duration: Some(1),
                dotted: false,
                articulation: Articulation::Normal,
                arpeggio: Some(Arpeggio {
                    direction: ArpeggioDirection::Down,
                    resolution: Some(16),
                }),
                velocity: None,
            }],
            is_layer_start: true,
        }],
    );

    let compiled = compile_clip(&clip, &clock, &registry).unwrap();
    let notes: Vec<u8> = compiled
        .events
        .iter()
        .filter_map(|e| match e.message {
            MidiMessage::NoteOn { note, .. } => Some(note),
            _ => None,
        })
        .collect();
    assert_eq!(notes, vec![67, 64, 60]);
}

/// `arp(updown, 16)` ping-pongs without repeating the endpoints.
#[test]
fn chord_bracket_arpeggio_updown_pingpong() {
    let registry = make_registry_with_bass();
    let clock = Clock::new(120);
    let clip = make_pitched_clip(
        "test",
        None,
        vec![PitchedLine {
            instrument: "bass".to_string(),
            elements: vec![PitchedElement::ChordBracket {
                notes: vec![
                    (NoteName::C, Some(4)),
                    (NoteName::E, None),
                    (NoteName::G, None),
                ],
                duration: Some(1),
                dotted: false,
                articulation: Articulation::Normal,
                arpeggio: Some(Arpeggio {
                    direction: ArpeggioDirection::UpDown,
                    resolution: Some(16),
                }),
                velocity: None,
            }],
            is_layer_start: true,
        }],
    );

    let compiled = compile_clip(&clip, &clock, &registry).unwrap();
    let notes: Vec<u8> = compiled
        .events
        .iter()
        .filter_map(|e| match e.message {
            MidiMessage::NoteOn { note, .. } => Some(note),
            _ => None,
        })
        .collect();
    // C4=60, E4=64, G4=67, E4=64
    assert_eq!(notes, vec![60, 64, 67, 64]);
}

/// When resolution is omitted, the chord duration is used as the per-step length.
#[test]
fn chord_bracket_arpeggio_falls_back_to_duration() {
    let registry = make_registry_with_bass();
    let clock = Clock::new(120);
    let clip = make_pitched_clip(
        "test",
        None,
        vec![PitchedLine {
            instrument: "bass".to_string(),
            elements: vec![PitchedElement::ChordBracket {
                notes: vec![
                    (NoteName::C, Some(4)),
                    (NoteName::E, None),
                    (NoteName::G, None),
                ],
                duration: Some(8),
                dotted: false,
                articulation: Articulation::Normal,
                arpeggio: Some(Arpeggio {
                    direction: ArpeggioDirection::Up,
                    resolution: None,
                }),
                velocity: None,
            }],
            is_layer_start: true,
        }],
    );

    let compiled = compile_clip(&clip, &clock, &registry).unwrap();
    let note_ons: Vec<_> = compiled
        .events
        .iter()
        .filter(|e| matches!(e.message, MidiMessage::NoteOn { .. }))
        .collect();
    let ticks: Vec<u64> = note_ons.iter().map(|e| e.tick).collect();
    assert_eq!(ticks, vec![0, 240, 480]);
}

/// When both resolution and duration are unspecified, the compiler still
/// compiles using the carry-over duration. (LSP separately warns when the
/// source omits both — handled at the diagnostics layer.)
#[test]
fn chord_bracket_arpeggio_uses_carry_over_when_unspecified() {
    let registry = make_registry_with_bass();
    let clock = Clock::new(120);
    let clip = make_pitched_clip(
        "test",
        None,
        vec![PitchedLine {
            instrument: "bass".to_string(),
            elements: vec![
                single_note(NoteName::C, Some(3), Some(8), false),
                PitchedElement::ChordBracket {
                    notes: vec![(NoteName::C, Some(4)), (NoteName::E, None)],
                    duration: None,
                    dotted: false,
                    articulation: Articulation::Normal,
                    arpeggio: Some(Arpeggio {
                        direction: ArpeggioDirection::Up,
                        resolution: None,
                    }),
                    velocity: None,
                },
            ],
            is_layer_start: true,
        }],
    );

    let compiled = compile_clip(&clip, &clock, &registry).unwrap();
    let note_ons: Vec<_> = compiled
        .events
        .iter()
        .filter(|e| matches!(e.message, MidiMessage::NoteOn { .. }))
        .collect();
    assert_eq!(note_ons.len(), 3);
    let ticks: Vec<u64> = note_ons.iter().map(|e| e.tick).collect();
    assert_eq!(ticks, vec![0, 240, 480]);
}

/// `arp(random, ...)` lays all candidates per step and emits one
/// random_choice_group per step.
#[test]
fn chord_bracket_arpeggio_random_emits_choice_groups() {
    let registry = make_registry_with_bass();
    let clock = Clock::new(120);
    let clip = make_pitched_clip(
        "test",
        None,
        vec![PitchedLine {
            instrument: "bass".to_string(),
            elements: vec![PitchedElement::ChordBracket {
                notes: vec![
                    (NoteName::C, Some(4)),
                    (NoteName::E, None),
                    (NoteName::G, None),
                ],
                duration: Some(1),
                dotted: false,
                articulation: Articulation::Normal,
                arpeggio: Some(Arpeggio {
                    direction: ArpeggioDirection::Random,
                    resolution: Some(8),
                }),
                velocity: None,
            }],
            is_layer_start: true,
        }],
    );

    let compiled = compile_clip(&clip, &clock, &registry).unwrap();
    let note_ons: Vec<_> = compiled
        .events
        .iter()
        .filter(|e| matches!(e.message, MidiMessage::NoteOn { .. }))
        .collect();
    assert_eq!(note_ons.len(), 9);
    assert_eq!(compiled.random_choice_groups.len(), 3);
    for g in &compiled.random_choice_groups {
        assert_eq!(g.candidates.len(), 3);
        for c in &g.candidates {
            assert_eq!(c.len(), 2);
        }
    }
}


/// `cm:4:1 arp(up, 8)` should arpeggiate chord tones [C4, Eb4, G4] ascending.
#[test]
fn chord_name_arpeggio_up_uses_resolution() {
    let registry = make_registry_with_bass();
    let clock = Clock::new(120);
    let clip = make_pitched_clip(
        "test",
        None,
        vec![PitchedLine {
            instrument: "bass".to_string(),
            elements: vec![PitchedElement::Note(
                NoteEvent::ChordName {
                    root: NoteName::C,
                    suffix: ChordSuffix::Min,
                    octave: Some(4),
                    duration: Some(1),
                    dotted: false,
                    arpeggio: Some(Arpeggio {
                        direction: ArpeggioDirection::Up,
                        resolution: Some(8),
                    }),
                },
                Articulation::Normal,
                None,
            )],
            is_layer_start: true,
        }],
    );

    let compiled = compile_clip(&clip, &clock, &registry).unwrap();
    let note_ons: Vec<_> = compiled
        .events
        .iter()
        .filter(|e| matches!(e.message, MidiMessage::NoteOn { .. }))
        .collect();
    assert_eq!(note_ons.len(), 3);
    let ticks: Vec<u64> = note_ons.iter().map(|e| e.tick).collect();
    assert_eq!(ticks, vec![0, 240, 480]);
    let notes: Vec<u8> = note_ons
        .iter()
        .map(|e| match e.message {
            MidiMessage::NoteOn { note, .. } => note,
            _ => unreachable!(),
        })
        .collect();
    assert_eq!(notes, vec![60, 63, 67]);
}

/// `cm arp(random, 4)` should produce RandomChoiceGroups for chord tones.
#[test]
fn chord_name_arpeggio_random_emits_choice_groups() {
    let registry = make_registry_with_bass();
    let clock = Clock::new(120);
    let clip = make_pitched_clip(
        "test",
        None,
        vec![PitchedLine {
            instrument: "bass".to_string(),
            elements: vec![PitchedElement::Note(
                NoteEvent::ChordName {
                    root: NoteName::C,
                    suffix: ChordSuffix::Min,
                    octave: Some(4),
                    duration: Some(1),
                    dotted: false,
                    arpeggio: Some(Arpeggio {
                        direction: ArpeggioDirection::Random,
                        resolution: Some(4),
                    }),
                },
                Articulation::Normal,
                None,
            )],
            is_layer_start: true,
        }],
    );

    let compiled = compile_clip(&clip, &clock, &registry).unwrap();
    assert_eq!(compiled.random_choice_groups.len(), 3);
    for g in &compiled.random_choice_groups {
        assert_eq!(g.candidates.len(), 3);
        for c in &g.candidates {
            assert_eq!(c.len(), 2);
        }
    }
}

/// `cm:4:8 arp(up)` falls back to the chord duration as per-step length.
#[test]
fn chord_name_arpeggio_falls_back_to_duration() {
    let registry = make_registry_with_bass();
    let clock = Clock::new(120);
    let clip = make_pitched_clip(
        "test",
        None,
        vec![PitchedLine {
            instrument: "bass".to_string(),
            elements: vec![PitchedElement::Note(
                NoteEvent::ChordName {
                    root: NoteName::C,
                    suffix: ChordSuffix::Maj,
                    octave: Some(4),
                    duration: Some(8),
                    dotted: false,
                    arpeggio: Some(Arpeggio {
                        direction: ArpeggioDirection::Up,
                        resolution: None,
                    }),
                },
                Articulation::Normal,
                None,
            )],
            is_layer_start: true,
        }],
    );

    let compiled = compile_clip(&clip, &clock, &registry).unwrap();
    let note_ons: Vec<_> = compiled
        .events
        .iter()
        .filter(|e| matches!(e.message, MidiMessage::NoteOn { .. }))
        .collect();
    let ticks: Vec<u64> = note_ons.iter().map(|e| e.tick).collect();
    assert_eq!(ticks, vec![0, 240, 480]);
}


/// Unit test: gate 100% returns legato (off=0)
#[test]
fn min_gate_off_legato_unchanged() {
    let clock = Clock::new(120);
    let result = apply_min_gate_off(480, 100, &clock);
    assert_eq!(result, 480);
}

/// Normal gate ratio is not affected by 5ms guarantee
#[test]
fn min_gate_off_normal_unaffected() {
    let clock = Clock::new(120);
    // 120BPM, PPQ480: tick_duration_us = 1041us
    let result = apply_min_gate_off(480, 80, &clock);
    assert_eq!(result, 384);
}

/// Extreme gate ratio triggers 5ms guarantee
#[test]
fn min_gate_off_extreme_gate_clamped() {
    let clock = Clock::new(120);
    // 120BPM, PPQ480: tick_duration_us = 1041us
    // min_off_ticks = ceil(5000/1041) = 5
    // 10ticks * 99% = 9 → off = 1 tick < 5 → gate_ticks = 10 - 5 = 5
    let result = apply_min_gate_off(10, 99, &clock);
    assert_eq!(result, 5);
}

/// Verify gate 100% (legato) produces full note_ticks as gate in compiled clip
#[test]
fn min_gate_off_legato_compile() {
    let mut registry = Registry::default();
    registry.register_block(Block::Instrument(InstrumentDef {
        name: "pad".to_string(),
        device: "dev".to_string(),
        channel: MidiChannel::from_one_based(3).unwrap(),
        note: None,
        gate_normal: Some(100),
        gate_staccato: Some(60),
        velocity_normal: None,
        velocity_accent: None,
        velocity_ghost: None,
        cc_mappings: vec![],
        local_vars: vec![],
        unresolved: Default::default(),
    }));

    let clock = Clock::new(120);
    let clip = make_pitched_clip(
        "test",
        None,
        vec![PitchedLine {
            instrument: "pad".to_string(),
            elements: vec![single_note(NoteName::C, Some(4), Some(4), false)],
            is_layer_start: true,
        }],
    );

    let compiled = compile_clip(&clip, &clock, &registry).unwrap();
    let note_off = compiled
        .events
        .iter()
        .find(|e| matches!(e.message, MidiMessage::NoteOff { .. }))
        .unwrap();
    assert_eq!(note_off.tick, 480);
}


fn make_registry_with_bass_cc() -> Registry {
    let mut registry = Registry::default();
    registry.register_block(Block::Instrument(InstrumentDef {
        name: "bass".to_string(),
        device: "dev".to_string(),
        channel: MidiChannel::from_one_based(1).unwrap(),
        note: None,
        gate_normal: Some(80),
        gate_staccato: Some(40),
        velocity_normal: None,
        velocity_accent: None,
        velocity_ghost: None,
        cc_mappings: vec![CcMapping {
            alias: "cutoff".to_string(),
            cc_number: 74,
            cc_number_ref: None,
        }],
        local_vars: vec![],
        unresolved: Default::default(),
    }));
    registry
}

/// Verify step-mode CC automation produces MIDI CC events
#[test]
fn cc_automation_step_basic() {
    let registry = make_registry_with_bass_cc();
    let clock = Clock::new(120);
    let clip = ClipDef {
        name: "test".to_string(),
        options: ClipOptions::default(),
        body: ClipBody::Pitched(PitchedClipBody {
            lines: vec![PitchedLine {
                instrument: "bass".to_string(),
                elements: vec![single_note(NoteName::C, Some(4), Some(4), false)],
                is_layer_start: true,
            }],
            cc_automations: vec![CcAutomation::Step(CcStepValues {
                target: CcTarget {
                    instrument: "bass".to_string(),
                    param: "cutoff".to_string(),
                },
                cells: vec![
                    CellToken::Cell(Some(0)),
                    CellToken::Cell(Some(32)),
                    CellToken::Cell(Some(64)),
                    CellToken::Cell(Some(127)),
                ],
            })],
        }),
    };

    let compiled = compile_clip(&clip, &clock, &registry).unwrap();
    let cc_events: Vec<_> = compiled
        .events
        .iter()
        .filter(|e| matches!(e.message, MidiMessage::ControlChange { .. }))
        .collect();
    assert_eq!(cc_events.len(), 4);

    if let MidiMessage::ControlChange { channel, cc, value } = cc_events[0].message {
        assert_eq!(channel, MidiChannel::from_zero_based(0).unwrap());
        assert_eq!(cc, 74);
        assert_eq!(value, 0);
    } else {
        panic!("expected ControlChange");
    }
    if let MidiMessage::ControlChange { channel, cc, value } = cc_events[3].message {
        assert_eq!(channel, MidiChannel::from_zero_based(0).unwrap());
        assert_eq!(cc, 74);
        assert_eq!(value, 127);
    } else {
        panic!("expected ControlChange");
    }
}

/// Time-specified CC automation with point values only
#[test]
fn cc_automation_time_point() {
    let registry = make_registry_with_bass_cc();
    let clock = Clock::new(120);
    let clip = ClipDef {
        name: "test".to_string(),
        options: ClipOptions::default(),
        body: ClipBody::Pitched(PitchedClipBody {
            lines: vec![PitchedLine {
                instrument: "bass".to_string(),
                elements: vec![single_note(NoteName::C, Some(4), Some(4), false)],
                is_layer_start: true,
            }],
            cc_automations: vec![CcAutomation::Time(CcTimeValues {
                target: CcTarget {
                    instrument: "bass".to_string(),
                    param: "cutoff".to_string(),
                },
                segments: vec![
                    CcTimeSegment {
                        from: CcTimePoint {
                            value: 0,
                            bar: 1,
                            beat: 1,
                        },
                        to: None,
                    },
                    CcTimeSegment {
                        from: CcTimePoint {
                            value: 127,
                            bar: 2,
                            beat: 1,
                        },
                        to: None,
                    },
                ],
            })],
        }),
    };

    let compiled = compile_clip(&clip, &clock, &registry).unwrap();
    let cc_events: Vec<_> = compiled
        .events
        .iter()
        .filter(|e| matches!(e.message, MidiMessage::ControlChange { .. }))
        .collect();
    assert_eq!(cc_events.len(), 2);
    // 1:1 → tick=0, value=0
    assert_eq!(cc_events[0].tick, 0);
    assert!(matches!(
        cc_events[0].message,
        MidiMessage::ControlChange { value: 0, .. }
    ));
    assert_eq!(cc_events[1].tick, 1920);
    assert!(matches!(
        cc_events[1].message,
        MidiMessage::ControlChange { value: 127, .. }
    ));
}

/// CC automation in drum clip
#[test]
fn cc_automation_in_drum_clip() {
    let mut registry = make_registry_with_bass_cc();
    registry.register_block(Block::Kit(KitDef {
        name: "kit".to_string(),
        device: "dev".to_string(),
        instruments: vec![KitInstrument {
            name: "bd".to_string(),
            channel: MidiChannel::from_one_based(10).unwrap(),
            note: KitInstrumentNote {
                name: NoteName::C,
                octave: 2,
            },
            gate_normal: Some(50),
            gate_staccato: None,
            velocity_normal: None,
            velocity_accent: None,
            velocity_ghost: None,
            unresolved: Default::default(),
        }],
    }));

    let clock = Clock::new(120);
    let clip = ClipDef {
        name: "drums".to_string(),
        options: ClipOptions::default(),
        body: ClipBody::Drum(DrumClipBody {
            kit: "kit".to_string(),
            resolution: 16,
            rows: vec![DrumRow {
                instrument: "bd".to_string(),
                hits: vec![HitSymbol::Normal, HitSymbol::Rest],
                probability: None,
            }],
            cc_automations: vec![CcAutomation::Step(CcStepValues {
                target: CcTarget {
                    instrument: "bass".to_string(),
                    param: "cutoff".to_string(),
                },
                cells: vec![
                    CellToken::Cell(Some(64)),
                    CellToken::Cell(Some(127)),
                ],
            })],
        }),
    };

    let compiled = compile_clip(&clip, &clock, &registry).unwrap();
    let cc_events: Vec<_> = compiled
        .events
        .iter()
        .filter(|e| matches!(e.message, MidiMessage::ControlChange { .. }))
        .collect();
    assert_eq!(cc_events.len(), 2);
    if let MidiMessage::ControlChange { channel, cc, value } = cc_events[0].message {
        assert_eq!(channel, MidiChannel::from_zero_based(0).unwrap());
        assert_eq!(cc, 74);
        assert_eq!(value, 64);
    } else {
        panic!("expected ControlChange");
    }
}

// ---------------------------------------------------------------------
// CC-step meta-token integration tests.
// ---------------------------------------------------------------------

/// `None` cells produce no MIDI event.
#[test]
fn cc_step_dot_skips_emission() {
    let registry = make_registry_with_bass_cc();
    let clock = Clock::new(120);
    let clip = ClipDef {
        name: "test".to_string(),
        options: ClipOptions::default(),
        body: ClipBody::Pitched(PitchedClipBody {
            lines: vec![PitchedLine {
                instrument: "bass".to_string(),
                elements: vec![single_note(NoteName::C, Some(4), Some(4), false)],
                is_layer_start: true,
            }],
            cc_automations: vec![CcAutomation::Step(CcStepValues {
                target: CcTarget {
                    instrument: "bass".to_string(),
                    param: "cutoff".to_string(),
                },
                // 4 step: Some(0), None, Some(64), None
                cells: vec![
                    CellToken::Cell(Some(0)),
                    CellToken::Cell(None),
                    CellToken::Cell(Some(64)),
                    CellToken::Cell(None),
                ],
            })],
        }),
    };

    let compiled = compile_clip(&clip, &clock, &registry).unwrap();
    let cc_events: Vec<_> = compiled
        .events
        .iter()
        .filter(|e| matches!(e.message, MidiMessage::ControlChange { .. }))
        .collect();
    assert_eq!(cc_events.len(), 2);
    let ticks_per_step = clock.duration_to_ticks(16, false);
    assert_eq!(cc_events[0].tick, 0);
    assert_eq!(cc_events[1].tick, 2 * ticks_per_step);
    if let MidiMessage::ControlChange { value, .. } = cc_events[1].message {
        assert_eq!(value, 64);
    } else {
        panic!("expected ControlChange");
    }
}

/// `|` snaps to a beat boundary (= 4 steps); shorts are padded.
#[test]
fn cc_step_pipe_pads_to_beat_boundary() {
    let registry = make_registry_with_bass_cc();
    let clock = Clock::new(120);
    let cells = vec![
        CellToken::Cell(Some(10)),
        CellToken::Cell(Some(20)),
        CellToken::Pipe,
        CellToken::Cell(Some(64)),
        CellToken::Cell(Some(127)),
    ];
    let clip = ClipDef {
        name: "test".to_string(),
        options: ClipOptions::default(),
        body: ClipBody::Pitched(PitchedClipBody {
            lines: vec![PitchedLine {
                instrument: "bass".to_string(),
                elements: vec![single_note(NoteName::C, Some(4), Some(4), false)],
                is_layer_start: true,
            }],
            cc_automations: vec![CcAutomation::Step(CcStepValues {
                target: CcTarget {
                    instrument: "bass".to_string(),
                    param: "cutoff".to_string(),
                },
                cells,
            })],
        }),
    };
    let compiled = compile_clip(&clip, &clock, &registry).unwrap();
    let cc_events: Vec<_> = compiled
        .events
        .iter()
        .filter(|e| matches!(e.message, MidiMessage::ControlChange { .. }))
        .collect();
    assert_eq!(cc_events.len(), 4);
    let ticks_per_step = clock.duration_to_ticks(16, false);
    assert_eq!(cc_events[0].tick, 0);
    assert_eq!(cc_events[1].tick, ticks_per_step);
    assert_eq!(cc_events[2].tick, 4 * ticks_per_step);
    assert_eq!(cc_events[3].tick, 5 * ticks_per_step);
}

/// `|` truncates overruns back to the previous beat boundary.
#[test]
fn cc_step_pipe_truncates_overrun() {
    let registry = make_registry_with_bass_cc();
    let clock = Clock::new(120);
    let cells = vec![
        CellToken::Cell(Some(1)),
        CellToken::Cell(Some(2)),
        CellToken::Cell(Some(3)),
        CellToken::Cell(Some(4)),
        CellToken::Cell(Some(5)),
        CellToken::Pipe,
    ];
    let clip = ClipDef {
        name: "test".to_string(),
        options: ClipOptions::default(),
        body: ClipBody::Pitched(PitchedClipBody {
            lines: vec![PitchedLine {
                instrument: "bass".to_string(),
                elements: vec![single_note(NoteName::C, Some(4), Some(4), false)],
                is_layer_start: true,
            }],
            cc_automations: vec![CcAutomation::Step(CcStepValues {
                target: CcTarget {
                    instrument: "bass".to_string(),
                    param: "cutoff".to_string(),
                },
                cells,
            })],
        }),
    };
    let compiled = compile_clip(&clip, &clock, &registry).unwrap();
    let cc_events: Vec<_> = compiled
        .events
        .iter()
        .filter(|e| matches!(e.message, MidiMessage::ControlChange { .. }))
        .collect();
    assert_eq!(cc_events.len(), 4);
    for (i, ev) in cc_events.iter().enumerate() {
        if let MidiMessage::ControlChange { value, .. } = ev.message {
            assert_eq!(value, (i + 1) as u8);
        }
    }
}

/// `>N` snaps the cursor to bar N's start.
#[test]
fn cc_step_bar_jump_jumps_to_bar() {
    let registry = make_registry_with_bass_cc();
    let clock = Clock::new(120);
    // 1 step + >3 + 1 step  (steps_per_bar = 16 in 4/4)
    let cells = vec![
        CellToken::Cell(Some(10)),
        CellToken::BarJump(3),
        CellToken::Cell(Some(99)),
    ];
    let clip = ClipDef {
        name: "test".to_string(),
        options: ClipOptions {
            bars: Some(4),
            time_sig: None,
            scale: None,
            octave_shift: 0,
        },
        body: ClipBody::Pitched(PitchedClipBody {
            lines: vec![PitchedLine {
                instrument: "bass".to_string(),
                elements: vec![single_note(NoteName::C, Some(4), Some(4), false)],
                is_layer_start: true,
            }],
            cc_automations: vec![CcAutomation::Step(CcStepValues {
                target: CcTarget {
                    instrument: "bass".to_string(),
                    param: "cutoff".to_string(),
                },
                cells,
            })],
        }),
    };
    let compiled = compile_clip(&clip, &clock, &registry).unwrap();
    let cc_events: Vec<_> = compiled
        .events
        .iter()
        .filter(|e| matches!(e.message, MidiMessage::ControlChange { .. }))
        .collect();
    assert_eq!(cc_events.len(), 2);
    let ticks_per_step = clock.duration_to_ticks(16, false);
    assert_eq!(cc_events[0].tick, 0);
    assert_eq!(cc_events[1].tick, 32 * ticks_per_step);
    if let MidiMessage::ControlChange { value, .. } = cc_events[1].message {
        assert_eq!(value, 99);
    }
}

// ---------------------------------------------------------------------
// ---------------------------------------------------------------------

#[test]
fn pitched_events_carry_instrument_device() {
    let registry = make_registry_with_bass();
    let clock = Clock::new(120);
    let clip = make_pitched_clip(
        "test",
        None,
        vec![PitchedLine {
            instrument: "bass".to_string(),
            elements: vec![single_note(NoteName::C, Some(4), Some(4), false)],
            is_layer_start: true,
        }],
    );

    let compiled = compile_clip(&clip, &clock, &registry).unwrap();
    assert!(!compiled.events.is_empty());
    for ev in &compiled.events {
        assert_eq!(ev.device, "dev", "NoteOn/NoteOff should carry device");
    }
}

#[test]
fn pitched_multi_line_uses_per_instrument_device() {
    let mut registry = Registry::default();
    registry.register_block(Block::Instrument(InstrumentDef {
        name: "lead".to_string(),
        device: "synth_a".to_string(),
        channel: MidiChannel::from_one_based(1).unwrap(),
        note: None,
        gate_normal: Some(80),
        gate_staccato: Some(40),
        velocity_normal: None,
        velocity_accent: None,
        velocity_ghost: None,
        cc_mappings: vec![],
        local_vars: vec![],
        unresolved: Default::default(),
    }));
    registry.register_block(Block::Instrument(InstrumentDef {
        name: "pad".to_string(),
        device: "synth_b".to_string(),
        channel: MidiChannel::from_one_based(2).unwrap(),
        note: None,
        gate_normal: Some(80),
        gate_staccato: Some(40),
        velocity_normal: None,
        velocity_accent: None,
        velocity_ghost: None,
        cc_mappings: vec![],
        local_vars: vec![],
        unresolved: Default::default(),
    }));

    let clock = Clock::new(120);
    let clip = make_pitched_clip(
        "dual",
        None,
        vec![
            PitchedLine {
                instrument: "lead".to_string(),
                elements: vec![single_note(NoteName::C, Some(4), Some(4), false)],
                is_layer_start: true,
            },
            PitchedLine {
                instrument: "pad".to_string(),
                elements: vec![single_note(NoteName::E, Some(4), Some(4), false)],
                is_layer_start: true,
            },
        ],
    );

    let compiled = compile_clip(&clip, &clock, &registry).unwrap();

    let lead_ch = MidiChannel::from_zero_based(0).unwrap();
    let pad_ch = MidiChannel::from_zero_based(1).unwrap();
    let lead_events: Vec<_> = compiled
        .events
        .iter()
        .filter(|e| match e.message {
            MidiMessage::NoteOn { channel, .. } | MidiMessage::NoteOff { channel, .. } => {
                channel == lead_ch
            }
            _ => false,
        })
        .collect();
    let pad_events: Vec<_> = compiled
        .events
        .iter()
        .filter(|e| match e.message {
            MidiMessage::NoteOn { channel, .. } | MidiMessage::NoteOff { channel, .. } => {
                channel == pad_ch
            }
            _ => false,
        })
        .collect();

    assert!(!lead_events.is_empty());
    assert!(!pad_events.is_empty());
    for ev in lead_events {
        assert_eq!(ev.device, "synth_a");
    }
    for ev in pad_events {
        assert_eq!(ev.device, "synth_b");
    }
}

#[test]
fn drum_events_carry_kit_device() {

    let mut registry = Registry::default();
    registry.register_block(Block::Kit(KitDef {
        name: "mykit".to_string(),
        device: "drum_device".to_string(),
        instruments: vec![KitInstrument {
            name: "kick".to_string(),
            channel: MidiChannel::from_one_based(10).unwrap(),
            note: KitInstrumentNote {
                name: NoteName::C,
                octave: 2,
            },
            gate_normal: Some(80),
            gate_staccato: Some(40),
            velocity_normal: None,
            velocity_accent: None,
            velocity_ghost: None,
            unresolved: Default::default(),
        }],
    }));

    let clock = Clock::new(120);
    let clip = ClipDef {
        name: "beat".to_string(),
        options: ClipOptions {
            bars: None,
            time_sig: None,
            scale: None,
            octave_shift: 0,
        },
        body: ClipBody::Drum(DrumClipBody {
            kit: "mykit".to_string(),
            resolution: 16,
            rows: vec![DrumRow {
                instrument: "kick".to_string(),
                hits: vec![
                    HitSymbol::Accent,
                    HitSymbol::Rest,
                    HitSymbol::Normal,
                    HitSymbol::Rest,
                ],
                probability: None,
            }],
            cc_automations: vec![],
        }),
    };

    let compiled = compile_clip(&clip, &clock, &registry).unwrap();
    assert!(!compiled.events.is_empty());
    for ev in &compiled.events {
        assert_eq!(ev.device, "drum_device");
    }
}


#[test]
fn arpeggio_gate_longer_than_its_step_overlaps_the_next_note() {
    let mut tick: u64 = 100;
    let mut events = Vec::new();
    let mut groups = Vec::new();
    let ch = MidiChannel::from_one_based(1).unwrap();
    emit_arpeggio_cycle(
        &vec![60, 64, 67],
        lcvgc::ast::ArpeggioDirection::Up,
        10,
        20,
        ch,
        "dev",
        &mut tick,
        &mut events,
        &mut groups,
        90,
    );
    assert_eq!(tick, 130);
    let got: Vec<(u64, bool, u8)> = events
        .iter()
        .map(|e| match e.message {
            MidiMessage::NoteOn { note, .. } => (e.tick, true, note),
            MidiMessage::NoteOff { note, .. } => (e.tick, false, note),
            _ => panic!("only notes"),
        })
        .collect();
    assert_eq!(
        got,
        vec![(100, true, 60), (120, false, 60), (110, true, 64), (130, false, 64), (120, true, 67), (140, false, 67)]
    );
    assert!(groups.is_empty());
}
