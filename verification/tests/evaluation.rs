//! Evaluation of definition blocks: registration, block scopes of
//! instruments, variables and tempo.

use lcvgc::ast::{
    Block, ClipBody, ClipDef, ClipOptions, DeviceDef, InstrumentDef, KitDef, PitchedClipBody, ScaleDef, SceneDef, SessionDef,
    Tempo, VarDef,
};
use lcvgc::clock::Clock;
use lcvgc::domain::{MidiChannel, NoteName, ScaleType};
use lcvgc::error::EngineError;
use lcvgc::evaluation::{eval_definition, EvalResult};
use lcvgc::evaluator::Evaluator;
use lcvgc::registry::Registry;
use lcvgc::scope::ScopeChain;

/// The engine's evaluator, with the tables these scenarios read.
struct Ev {
    inner: Evaluator,
}

impl Ev {
    fn new(bpm: i64) -> Ev {
        Ev { inner: Evaluator::new(bpm) }
    }

    fn eval_block(&mut self, block: Block) -> Result<EvalResult, EngineError> {
        self.inner.eval_block(block)
    }

    fn registry(&self) -> &Registry {
        self.inner.registry()
    }

    fn scope(&self) -> &ScopeChain {
        self.inner.scope()
    }

    fn bpm(&self) -> i64 {
        self.inner.bpm()
    }
}

#[test]
fn eval_device_registered() {
    let mut ev = Ev::new(120);
    let result = ev
        .eval_block(Block::Device(DeviceDef {
            name: "synth".into(),
            port: "IAC Bus 1".into(),
            transport: true,
        }))
        .unwrap();
    assert_eq!(
        result,
        EvalResult::Registered {
            kind: "Device".into(),
            name: "synth".into(),
        }
    );
    assert!(ev.registry().get_device("synth").is_some());
}

#[test]
fn eval_instrument_registered() {
    let mut ev = Ev::new(120);
    let result = ev
        .eval_block(Block::Instrument(InstrumentDef {
            name: "piano".into(),
            device: "synth".into(),
            channel: MidiChannel::from_one_based(1).unwrap(),
            note: None,
            gate_normal: None,
            gate_staccato: None,
            velocity_normal: None,
            velocity_accent: None,
            velocity_ghost: None,
            cc_mappings: vec![],
            local_vars: vec![],
            unresolved: Default::default(),
        }))
        .unwrap();
    assert_eq!(
        result,
        EvalResult::Registered {
            kind: "Instrument".into(),
            name: "piano".into(),
        }
    );
    let inst = ev.registry().get_instrument("piano").unwrap();
    assert_eq!(inst.channel, MidiChannel::from_one_based(1).unwrap());
}

#[test]
fn eval_kit_registered() {
    let mut ev = Ev::new(120);
    let result = ev
        .eval_block(Block::Kit(KitDef {
            name: "drums".into(),
            device: "synth".into(),
            instruments: vec![],
        }))
        .unwrap();
    assert_eq!(
        result,
        EvalResult::Registered {
            kind: "Kit".into(),
            name: "drums".into(),
        }
    );
    assert!(ev.registry().get_kit("drums").is_some());
}

#[test]
fn eval_clip_registered() {
    let mut ev = Ev::new(120);
    let result = ev
        .eval_block(Block::Clip(ClipDef {
            name: "intro".into(),
            options: ClipOptions::default(),
            body: ClipBody::Pitched(PitchedClipBody {
                lines: vec![],
                cc_automations: vec![],
            }),
        }))
        .unwrap();
    assert_eq!(
        result,
        EvalResult::Registered {
            kind: "Clip".into(),
            name: "intro".into(),
        }
    );
    assert!(ev.registry().get_clip("intro").is_some());
}

#[test]
fn eval_scene_registered() {
    let mut ev = Ev::new(120);
    let result = ev
        .eval_block(Block::Scene(SceneDef {
            name: "verse".into(),
            entries: vec![],
        }))
        .unwrap();
    assert_eq!(
        result,
        EvalResult::Registered {
            kind: "Scene".into(),
            name: "verse".into(),
        }
    );
    assert!(ev.registry().get_scene("verse").is_some());
}

#[test]
fn eval_session_registered() {
    let mut ev = Ev::new(120);
    let result = ev
        .eval_block(Block::Session(SessionDef {
            name: "main".into(),
            entries: vec![],
        }))
        .unwrap();
    assert_eq!(
        result,
        EvalResult::Registered {
            kind: "Session".into(),
            name: "main".into(),
        }
    );
    assert!(ev.registry().get_session("main").is_some());
}

#[test]
fn eval_tempo_absolute() {
    let mut ev = Ev::new(120);
    let result = ev.eval_block(Block::Tempo(Tempo::Absolute(140))).unwrap();
    assert_eq!(result, EvalResult::TempoChanged(140));
    assert_eq!(ev.bpm(), 140);
}

#[test]
fn eval_tempo_relative() {
    let mut ev = Ev::new(120);
    let result = ev.eval_block(Block::Tempo(Tempo::Relative(10))).unwrap();
    assert_eq!(result, EvalResult::TempoChanged(130));
    assert_eq!(ev.bpm(), 130);
}

#[test]
fn eval_scale_changed() {
    let mut ev = Ev::new(120);
    let result = ev
        .eval_block(Block::Scale(ScaleDef {
            root: NoteName::C,
            scale_type: ScaleType::Major,
        }))
        .unwrap();
    assert_eq!(result, EvalResult::ScaleChanged);
    assert!(ev.registry().scale().is_some());
}

#[test]
fn eval_var_defined() {
    let mut ev = Ev::new(120);
    let result = ev
        .eval_block(Block::Var(VarDef {
            name: "key".into(),
            value: "Cm".into(),
        }))
        .unwrap();
    assert_eq!(result, EvalResult::VarDefined { name: "key".into() });
    assert_eq!(ev.registry().get_var("key"), Some("Cm"));
}

/// Verify global variables are registered in ScopeChain
#[test]
fn eval_var_registered_in_scope() {
    let mut ev = Ev::new(120);
    ev.eval_block(Block::Var(VarDef {
        name: "dev".into(),
        value: "mutant_brain".into(),
    }))
    .unwrap();
    assert_eq!(ev.scope().resolve("dev"), Some("mutant_brain"));
}

/// Verify global variable redefinition updates value
#[test]
fn eval_var_redefinition_updates_scope() {
    let mut ev = Ev::new(120);
    ev.eval_block(Block::Var(VarDef {
        name: "dev".into(),
        value: "mutant_brain".into(),
    }))
    .unwrap();
    ev.eval_block(Block::Var(VarDef {
        name: "dev".into(),
        value: "keystep".into(),
    }))
    .unwrap();
    assert_eq!(ev.scope().resolve("dev"), Some("keystep"));
}

/// Verify instrument block local_vars are scope-managed
#[test]
fn eval_instrument_with_local_vars() {
    let mut ev = Ev::new(120);
    ev.eval_block(Block::Var(VarDef {
        name: "ch".into(),
        value: "1".into(),
    }))
    .unwrap();

    ev.eval_block(Block::Instrument(InstrumentDef {
        name: "bass".into(),
        device: "mb".into(),
        channel: MidiChannel::from_one_based(3).unwrap(),
        note: None,
        gate_normal: None,
        gate_staccato: None,
        velocity_normal: None,
        velocity_accent: None,
        velocity_ghost: None,
        cc_mappings: vec![],
        local_vars: vec![VarDef {
            name: "ch".into(),
            value: "3".into(),
        }],
        unresolved: Default::default(),
    }))
    .unwrap();

    assert_eq!(ev.scope().resolve("ch"), Some("1"));
}


#[test]
fn eval_instrument_resolves_device_variable_in_block_scope() {
    let mut ev = Ev::new(120);
    ev.eval_block(Block::Var(VarDef { name: "dev".into(), value: "global_dev".into() })).unwrap();
    ev.eval_block(Block::Instrument(InstrumentDef {
        name: "bass".into(),
        device: "dev".into(),
        channel: MidiChannel::from_one_based(1).unwrap(),
        note: None,
        gate_normal: None,
        gate_staccato: None,
        velocity_normal: None,
        velocity_accent: None,
        velocity_ghost: None,
        cc_mappings: vec![],
        local_vars: vec![VarDef { name: "dev".into(), value: "local_dev".into() }],
        unresolved: Default::default(),
    }))
    .unwrap();
    assert_eq!(ev.registry().get_instrument("bass").unwrap().device, "local_dev");
    assert_eq!(ev.scope().resolve("dev"), Some("global_dev"));
    assert_eq!(ev.scope().depth(), 1);
}

#[test]
fn eval_instrument_with_undefined_variable_registers_nothing() {
    let mut ev = Ev::new(120);
    let mut unresolved = lcvgc::ast::UnresolvedVarRefs::default();
    unresolved.channel = Some("nope".into());
    let r = ev.eval_block(Block::Instrument(InstrumentDef {
        name: "bass".into(),
        device: "d".into(),
        channel: MidiChannel::from_one_based(1).unwrap(),
        note: None,
        gate_normal: None,
        gate_staccato: None,
        velocity_normal: None,
        velocity_accent: None,
        velocity_ghost: None,
        cc_mappings: vec![],
        local_vars: vec![],
        unresolved,
    }));
    match r {
        Err(EngineError::UndefinedVariable { name, field }) => {
            assert_eq!(name, "nope");
            assert_eq!(field, "channel");
        }
        other => panic!("expected UndefinedVariable, got {:?}", other),
    }
    assert!(ev.registry().get_instrument("bass").is_none());
}

#[test]
fn playback_commands_are_left_to_the_caller() {
    let mut registry = Registry::default();
    let mut scope = ScopeChain::new();
    let mut clock = Clock::new(120);
    let r = eval_definition(&mut registry, &mut scope, &mut clock, Block::Stop(lcvgc::ast::StopCommand { target: None }));
    assert!(r.is_none());
    assert!(registry.is_empty());
}

/// An instrument block as written with variable references: `refs` names
/// the variables the fields refer to; the written values stand in until
/// they are resolved.
fn instrument_with_refs(
    device: &str,
    channel: u8,
    refs: lcvgc::ast::UnresolvedVarRefs,
    local_vars: Vec<VarDef>,
    cc_mappings: Vec<lcvgc::ast::CcMapping>,
) -> Block {
    Block::Instrument(InstrumentDef {
        name: "bass".into(),
        device: device.into(),
        channel: MidiChannel::from_one_based(channel).unwrap(),
        note: None,
        gate_normal: None,
        gate_staccato: None,
        velocity_normal: None,
        velocity_accent: None,
        velocity_ghost: None,
        cc_mappings,
        local_vars,
        unresolved: refs,
    })
}

fn var(name: &str, value: &str) -> Block {
    Block::Var(VarDef { name: name.into(), value: value.into() })
}

#[test]
fn eval_var_expansion_device() {
    let mut ev = Ev::new(120);
    ev.eval_block(var("dev", "mutant_brain")).unwrap();
    ev.eval_block(Block::Device(DeviceDef { name: "mutant_brain".into(), port: "Mutant Brain".into(), transport: true })).unwrap();
    ev.eval_block(instrument_with_refs("dev", 1, Default::default(), vec![], vec![])).unwrap();
    let inst = ev.registry().get_instrument("bass").unwrap();
    assert_eq!(inst.device, "mutant_brain");
}

#[test]
fn eval_var_expansion_channel() {
    let mut ev = Ev::new(120);
    ev.eval_block(var("ch", "3")).unwrap();
    let mut refs = lcvgc::ast::UnresolvedVarRefs::default();
    refs.channel = Some("ch".into());
    ev.eval_block(instrument_with_refs("mb", 1, refs, vec![], vec![])).unwrap();
    let inst = ev.registry().get_instrument("bass").unwrap();
    assert_eq!(inst.channel, MidiChannel::from_one_based(3).unwrap());
}

#[test]
fn eval_var_expansion_gate_normal() {
    let mut ev = Ev::new(120);
    ev.eval_block(var("gn", "100")).unwrap();
    let mut refs = lcvgc::ast::UnresolvedVarRefs::default();
    refs.gate_normal = Some("gn".into());
    ev.eval_block(instrument_with_refs("mb", 1, refs, vec![], vec![])).unwrap();
    let inst = ev.registry().get_instrument("bass").unwrap();
    assert_eq!(inst.gate_normal, Some(100));
}

#[test]
fn eval_var_expansion_cc_number() {
    let mut ev = Ev::new(120);
    ev.eval_block(var("cc_num", "74")).unwrap();
    let cc = lcvgc::ast::CcMapping { alias: "filter".into(), cc_number: 0, cc_number_ref: Some("cc_num".into()) };
    ev.eval_block(instrument_with_refs("mb", 1, Default::default(), vec![], vec![cc])).unwrap();
    let inst = ev.registry().get_instrument("bass").unwrap();
    assert_eq!(inst.cc_mappings[0].cc_number, 74);
}

#[test]
fn eval_var_expansion_block_scope_shadowing() {
    let mut ev = Ev::new(120);
    ev.eval_block(var("ch", "1")).unwrap();
    let mut refs = lcvgc::ast::UnresolvedVarRefs::default();
    refs.channel = Some("ch".into());
    let locals = vec![VarDef { name: "ch".into(), value: "3".into() }];
    ev.eval_block(instrument_with_refs("mb", 1, refs, locals, vec![])).unwrap();
    let inst = ev.registry().get_instrument("bass").unwrap();
    assert_eq!(inst.channel, MidiChannel::from_one_based(3).unwrap());
    assert_eq!(ev.scope().resolve("ch"), Some("1"));
}

#[test]
fn eval_var_expansion_undefined_variable() {
    let mut ev = Ev::new(120);
    let mut refs = lcvgc::ast::UnresolvedVarRefs::default();
    refs.channel = Some("missing_var".into());
    let result = ev.eval_block(instrument_with_refs("mb", 1, refs, vec![], vec![]));
    assert!(result.is_err());
    assert!(matches!(result.unwrap_err(), EngineError::UndefinedVariable { .. }));
}

#[test]
fn eval_var_expansion_invalid_value() {
    let mut ev = Ev::new(120);
    ev.eval_block(var("ch", "abc")).unwrap();
    let mut refs = lcvgc::ast::UnresolvedVarRefs::default();
    refs.channel = Some("ch".into());
    let result = ev.eval_block(instrument_with_refs("mb", 1, refs, vec![], vec![]));
    assert!(result.is_err());
    assert!(matches!(result.unwrap_err(), EngineError::InvalidVariableValue { .. }));
}

#[test]
fn eval_include_processed() {
    let mut ev = Ev::new(120);
    let result = ev.eval_block(Block::Include(lcvgc::ast::IncludeDef { path: "other.lcvgc".into() })).unwrap();
    assert_eq!(result, EvalResult::IncludeProcessed { path: "other.lcvgc".into(), results_count: 0 });
}

#[test]
fn device_event_tx_unset_does_not_panic_on_device_eval() {
    let mut ev = Ev::new(120);
    ev.eval_block(Block::Device(DeviceDef { name: "foo".into(), port: "px".into(), transport: true })).unwrap();
    assert!(ev.registry().get_device("foo").is_some());
}

#[test]
fn clock_snapshot_is_independent_copy() {
    let mut ev = lcvgc::evaluator::Evaluator::new(120);
    let snap = ev.clock_snapshot();
    assert_eq!(snap.bpm(), 120);
    ev.eval_block(Block::Tempo(Tempo::Absolute(200))).unwrap();
    assert_eq!(snap.bpm(), 120);
    assert_eq!(ev.clock_snapshot().bpm(), 200);
}

#[test]
fn evaluator_tempo_block_reports_and_sets_the_new_tempo() {
    let mut ev = lcvgc::evaluator::Evaluator::new(120);
    let r = ev.eval_block(Block::Tempo(Tempo::Absolute(180))).unwrap();
    assert_eq!(r, EvalResult::TempoChanged(180));
    assert_eq!(ev.bpm(), 180);
    let shorter = ev.clock_snapshot().tick_duration_us();
    assert!(shorter < Clock::new(120).tick_duration_us());
}

#[test]
fn eval_blocks_gives_each_result_in_order_and_stops_at_an_error() {
    let mut ev = Evaluator::new(120);
    let r = ev
        .eval_blocks(vec![
            Block::Device(DeviceDef { name: "a".into(), port: "pa".into(), transport: true }),
            Block::Tempo(Tempo::Absolute(90)),
        ])
        .unwrap();
    assert_eq!(r, vec![EvalResult::Registered { kind: "Device".into(), name: "a".into() }, EvalResult::TempoChanged(90)]);
    let err = ev
        .eval_blocks(vec![
            Block::Play(lcvgc::ast::PlayCommand {
                target: lcvgc::ast::PlayTarget::Scene("missing".into()),
                repeat: lcvgc::ast::RepeatSpec::Loop,
            }),
            Block::Tempo(Tempo::Absolute(60)),
        ])
        .unwrap_err();
    assert!(matches!(err, EngineError::UnknownScene(ref n) if n == "missing"));
    assert_eq!(ev.bpm(), 90);
}

#[test]
fn eval_blocks_preload_skips_play_and_stop() {
    let mut ev = Evaluator::new(120);
    let r = ev
        .eval_blocks_preload(vec![
            Block::Play(lcvgc::ast::PlayCommand {
                target: lcvgc::ast::PlayTarget::Scene("missing".into()),
                repeat: lcvgc::ast::RepeatSpec::Loop,
            }),
            Block::Device(DeviceDef { name: "a".into(), port: "pa".into(), transport: true }),
            Block::Stop(lcvgc::ast::StopCommand { target: None }),
        ])
        .unwrap();
    assert_eq!(r, vec![EvalResult::Registered { kind: "Device".into(), name: "a".into() }]);
}

#[test]
fn preload_from_blocks_fills_only_an_empty_registry() {
    let mut ev = Evaluator::new(120);
    let main = vec![Block::Device(DeviceDef { name: "a".into(), port: "pa".into(), transport: true })];
    let extra = vec![vec![Block::Device(DeviceDef { name: "b".into(), port: "pb".into(), transport: false })]];
    assert!(ev.preload_from_blocks(main.clone(), extra));
    assert!(ev.registry().get_device("a").is_some());
    assert!(ev.registry().get_device("b").is_some());
    assert!(!ev.preload_from_blocks(vec![Block::Device(DeviceDef { name: "c".into(), port: "pc".into(), transport: true })], vec![]));
    assert!(ev.registry().get_device("c").is_none());
}
