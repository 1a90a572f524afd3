//! Variable resolution of instrument and kit fields.

use lcvgc::ast::{
    CcMapping, InstrumentDef, KitDef, KitInstrument, KitInstrumentNote, UnresolvedKitInstrumentVarRefs, UnresolvedVarRefs,
};
use lcvgc::domain::{MidiChannel, NoteName};
use lcvgc::error::EngineError;
use lcvgc::resolver::{resolve_instrument, resolve_kit};
use lcvgc::scope::ScopeChain;

#[test]
fn resolve_instrument_device() {
    let mut scope = ScopeChain::new();
    scope.define_global("dev".into(), "mutant_brain".into());

    let mut inst = InstrumentDef {
        name: "bass".into(),
        device: String::new(),
        channel: MidiChannel::from_one_based(1).unwrap(),
        note: None,
        gate_normal: None,
        gate_staccato: None,
        velocity_normal: None,
        velocity_accent: None,
        velocity_ghost: None,
        cc_mappings: vec![],
        local_vars: vec![],
        unresolved: UnresolvedVarRefs {
            device: Some("dev".into()),
            ..Default::default()
        },
    };

    resolve_instrument(&mut inst, &scope).unwrap();
    assert_eq!(inst.device, "mutant_brain");
}

#[test]
fn resolve_instrument_channel() {
    let mut scope = ScopeChain::new();
    scope.define_global("ch".into(), "3".into());

    let mut inst = InstrumentDef {
        name: "bass".into(),
        device: "mb".into(),
        channel: MidiChannel::from_zero_based(0).unwrap(),
        note: None,
        gate_normal: None,
        gate_staccato: None,
        velocity_normal: None,
        velocity_accent: None,
        velocity_ghost: None,
        cc_mappings: vec![],
        local_vars: vec![],
        unresolved: UnresolvedVarRefs {
            channel: Some("ch".into()),
            ..Default::default()
        },
    };

    resolve_instrument(&mut inst, &scope).unwrap();
    assert_eq!(inst.channel.as_one_based(), 3);
}

#[test]
fn resolve_instrument_gate_normal_and_staccato() {
    let mut scope = ScopeChain::new();
    scope.define_global("gn".into(), "100".into());
    scope.define_global("gs".into(), "50".into());

    let mut inst = InstrumentDef {
        name: "bass".into(),
        device: "mb".into(),
        channel: MidiChannel::from_one_based(1).unwrap(),
        note: None,
        gate_normal: Some(0),
        gate_staccato: Some(0),
        velocity_normal: None,
        velocity_accent: None,
        velocity_ghost: None,
        cc_mappings: vec![],
        local_vars: vec![],
        unresolved: UnresolvedVarRefs {
            gate_normal: Some("gn".into()),
            gate_staccato: Some("gs".into()),
            velocity_normal: None,
            velocity_accent: None,
            velocity_ghost: None,
            ..Default::default()
        },
    };

    resolve_instrument(&mut inst, &scope).unwrap();
    assert_eq!(inst.gate_normal, Some(100));
    assert_eq!(inst.gate_staccato, Some(50));
}

/// Verify velocity_normal/accent/ghost variable references are resolved on an instrument.
#[test]
fn resolve_instrument_velocity_refs() {
    let mut scope = ScopeChain::new();
    scope.define_global("vn".into(), "90".into());
    scope.define_global("va".into(), "120".into());
    scope.define_global("vg".into(), "30".into());

    let mut inst = InstrumentDef {
        name: "piano".into(),
        device: "mb".into(),
        channel: MidiChannel::from_one_based(1).unwrap(),
        note: None,
        gate_normal: None,
        gate_staccato: None,
        velocity_normal: Some(0),
        velocity_accent: Some(0),
        velocity_ghost: Some(0),
        cc_mappings: vec![],
        local_vars: vec![],
        unresolved: UnresolvedVarRefs {
            velocity_normal: Some("vn".into()),
            velocity_accent: Some("va".into()),
            velocity_ghost: Some("vg".into()),
            ..Default::default()
        },
    };

    resolve_instrument(&mut inst, &scope).unwrap();
    assert_eq!(inst.velocity_normal, Some(90));
    assert_eq!(inst.velocity_accent, Some(120));
    assert_eq!(inst.velocity_ghost, Some(30));
}

#[test]
fn resolve_instrument_cc_number() {

    let mut scope = ScopeChain::new();
    scope.define_global("cc_num".into(), "74".into());

    let mut inst = InstrumentDef {
        name: "bass".into(),
        device: "mb".into(),
        channel: MidiChannel::from_one_based(1).unwrap(),
        note: None,
        gate_normal: None,
        gate_staccato: None,
        velocity_normal: None,
        velocity_accent: None,
        velocity_ghost: None,
        cc_mappings: vec![CcMapping {
            alias: "filter".into(),
            cc_number: 0,
            cc_number_ref: Some("cc_num".into()),
        }],
        local_vars: vec![],
        unresolved: Default::default(),
    };

    resolve_instrument(&mut inst, &scope).unwrap();
    assert_eq!(inst.cc_mappings[0].cc_number, 74);
}

#[test]
fn resolve_instrument_undefined_variable() {
    let scope = ScopeChain::new();

    let mut inst = InstrumentDef {
        name: "bass".into(),
        device: String::new(),
        channel: MidiChannel::from_zero_based(0).unwrap(),
        note: None,
        gate_normal: None,
        gate_staccato: None,
        velocity_normal: None,
        velocity_accent: None,
        velocity_ghost: None,
        cc_mappings: vec![],
        local_vars: vec![],
        unresolved: UnresolvedVarRefs {
            channel: Some("missing_var".into()),
            ..Default::default()
        },
    };

    let result = resolve_instrument(&mut inst, &scope);
    assert!(result.is_err());
    match result.unwrap_err() {
        EngineError::UndefinedVariable { name, field } => {
            assert_eq!(name, "missing_var");
            assert_eq!(field, "channel");
        }
        other => panic!("Expected UndefinedVariable, got: {:?}", other),
    }
}

#[test]
fn resolve_instrument_invalid_value() {
    let mut scope = ScopeChain::new();
    scope.define_global("ch".into(), "abc".into());

    let mut inst = InstrumentDef {
        name: "bass".into(),
        device: "mb".into(),
        channel: MidiChannel::from_zero_based(0).unwrap(),
        note: None,
        gate_normal: None,
        gate_staccato: None,
        velocity_normal: None,
        velocity_accent: None,
        velocity_ghost: None,
        cc_mappings: vec![],
        local_vars: vec![],
        unresolved: UnresolvedVarRefs {
            channel: Some("ch".into()),
            ..Default::default()
        },
    };

    let result = resolve_instrument(&mut inst, &scope);
    assert!(result.is_err());
    match result.unwrap_err() {
        EngineError::InvalidVariableValue {
            name,
            value,
            expected_type,
        } => {
            assert_eq!(name, "ch");
            assert_eq!(value, "abc");
            assert_eq!(expected_type, "u8");
        }
        other => panic!("Expected InvalidVariableValue, got: {:?}", other),
    }
}

#[test]
fn resolve_kit_channel() {
    let mut scope = ScopeChain::new();
    scope.define_global("drum_ch".into(), "10".into());

    let mut kit = KitDef {
        name: "drums".into(),
        device: "td3".into(),
        instruments: vec![KitInstrument {
            name: "bd".into(),
            channel: MidiChannel::from_zero_based(0).unwrap(),
            note: KitInstrumentNote {
                name: NoteName::C,
                octave: 2,
            },
            gate_normal: None,
            gate_staccato: None,
            velocity_normal: None,
            velocity_accent: None,
            velocity_ghost: None,
            unresolved: UnresolvedKitInstrumentVarRefs {
                channel: Some("drum_ch".into()),
                ..Default::default()
            },
        }],
    };

    resolve_kit(&mut kit, &scope).unwrap();
    assert_eq!(kit.instruments[0].channel.as_one_based(), 10);
}

/// Verify velocity_normal/accent/ghost variable references are resolved on a kit instrument.
#[test]
fn resolve_kit_velocity_refs() {
    let mut scope = ScopeChain::new();
    scope.define_global("vn".into(), "90".into());
    scope.define_global("va".into(), "120".into());
    scope.define_global("vg".into(), "30".into());

    let mut kit = KitDef {
        name: "drums".into(),
        device: "td3".into(),
        instruments: vec![KitInstrument {
            name: "sn".into(),
            channel: MidiChannel::from_one_based(10).unwrap(),
            note: KitInstrumentNote {
                name: NoteName::D,
                octave: 2,
            },
            gate_normal: None,
            gate_staccato: None,
            velocity_normal: Some(0),
            velocity_accent: Some(0),
            velocity_ghost: Some(0),
            unresolved: UnresolvedKitInstrumentVarRefs {
                velocity_normal: Some("vn".into()),
                velocity_accent: Some("va".into()),
                velocity_ghost: Some("vg".into()),
                ..Default::default()
            },
        }],
    };

    resolve_kit(&mut kit, &scope).unwrap();
    assert_eq!(kit.instruments[0].velocity_normal, Some(90));
    assert_eq!(kit.instruments[0].velocity_accent, Some(120));
    assert_eq!(kit.instruments[0].velocity_ghost, Some(30));
}

#[test]
fn resolve_no_unresolved_refs_is_noop() {
    let scope = ScopeChain::new();

    let mut inst = InstrumentDef {
        name: "bass".into(),
        device: "mb".into(),
        channel: MidiChannel::from_one_based(1).unwrap(),
        note: None,
        gate_normal: Some(100),
        gate_staccato: None,
        velocity_normal: None,
        velocity_accent: None,
        velocity_ghost: None,
        cc_mappings: vec![],
        local_vars: vec![],
        unresolved: Default::default(),
    };

    resolve_instrument(&mut inst, &scope).unwrap();
    assert_eq!(inst.device, "mb");
    assert_eq!(inst.channel.as_one_based(), 1);
    assert_eq!(inst.gate_normal, Some(100));
}

