//! Registry: registration, lookup, overwriting and the transport cache.

use lcvgc::ast::{
    Block, ClipBody, ClipDef, ClipOptions, DeviceDef, IncludeDef, InstrumentDef, KitDef, PitchedClipBody, PlayCommand,
    PlayTarget, RepeatSpec, ScaleDef, SceneDef, SessionDef, StopCommand, Tempo, VarDef,
};
use lcvgc::domain::{MidiChannel, NoteName, ScaleType};
use lcvgc::registry::Registry;

#[test]
fn new_is_empty() {
    let reg = Registry::new();
    assert!(reg.get_device("any").is_none());
    assert!(reg.get_instrument("any").is_none());
    assert!(reg.get_kit("any").is_none());
    assert!(reg.get_clip("any").is_none());
    assert!(reg.get_scene("any").is_none());
    assert!(reg.get_session("any").is_none());
    assert!(reg.get_var("any").is_none());
    assert!(reg.tempo().is_none());
    assert!(reg.scale().is_none());
}

#[test]
fn is_empty_on_new() {
    let reg = Registry::new();
    assert!(reg.is_empty());
}

#[test]
fn is_empty_after_register() {
    let mut reg = Registry::new();
    reg.register_block(Block::Device(DeviceDef {
        name: "synth".into(),
        port: "IAC Bus 1".into(),
        transport: true,
    }));
    assert!(!reg.is_empty());
}

#[test]
fn register_device() {
    let mut reg = Registry::new();
    let result = reg.register_block(Block::Device(DeviceDef {
        name: "synth".into(),
        port: "IAC Bus 1".into(),
        transport: true,
    }));
    assert!(result);
    let d = reg.get_device("synth").unwrap();
    assert_eq!(d.port, "IAC Bus 1");
}

#[test]
fn device_overwrite() {
    let mut reg = Registry::new();
    reg.register_block(Block::Device(DeviceDef {
        name: "synth".into(),
        port: "port1".into(),
        transport: true,
    }));
    reg.register_block(Block::Device(DeviceDef {
        name: "synth".into(),
        port: "port2".into(),
        transport: true,
    }));
    assert_eq!(reg.get_device("synth").unwrap().port, "port2");
}

#[test]
fn get_device_unknown() {
    let reg = Registry::new();
    assert!(reg.get_device("unknown").is_none());
}

#[test]
fn register_instrument() {
    let mut reg = Registry::new();
    let result = reg.register_block(Block::Instrument(InstrumentDef {
        name: "piano".into(),
        device: "synth".into(),
        channel: MidiChannel::from_one_based(1).unwrap(),
        note: None,
        gate_normal: None,
        gate_staccato: None,
        velocity_normal: None,
        velocity_accent: None,
        velocity_ghost: None,
        cc_mappings: vec![],
        local_vars: vec![],
        unresolved: Default::default(),
    }));
    assert!(result);
    let i = reg.get_instrument("piano").unwrap();
    assert_eq!(i.channel, MidiChannel::from_one_based(1).unwrap());
}

#[test]
fn register_kit() {
    let mut reg = Registry::new();
    let result = reg.register_block(Block::Kit(KitDef {
        name: "drums".into(),
        device: "synth".into(),
        instruments: vec![],
    }));
    assert!(result);
    assert!(reg.get_kit("drums").is_some());
}

#[test]
fn register_clip() {
    let mut reg = Registry::new();
    let result = reg.register_block(Block::Clip(ClipDef {
        name: "intro".into(),
        options: ClipOptions::default(),
        body: ClipBody::Pitched(PitchedClipBody {
            lines: vec![],
            cc_automations: vec![],
        }),
    }));
    assert!(result);
    assert!(reg.get_clip("intro").is_some());
}

#[test]
fn register_scene() {
    let mut reg = Registry::new();
    let result = reg.register_block(Block::Scene(SceneDef {
        name: "verse".into(),
        entries: vec![],
    }));
    assert!(result);
    assert!(reg.get_scene("verse").is_some());
}

#[test]
fn register_session() {
    let mut reg = Registry::new();
    let result = reg.register_block(Block::Session(SessionDef {
        name: "main".into(),
        entries: vec![],
    }));
    assert!(result);
    assert!(reg.get_session("main").is_some());
}

#[test]
fn register_var() {
    let mut reg = Registry::new();
    let result = reg.register_block(Block::Var(VarDef {
        name: "bpm".into(),
        value: "120".into(),
    }));
    assert!(result);
    assert_eq!(reg.get_var("bpm"), Some("120"));
}

#[test]
fn register_tempo() {
    let mut reg = Registry::new();
    let result = reg.register_block(Block::Tempo(Tempo::Absolute(140)));
    assert!(result);
    assert_eq!(reg.tempo(), Some(&Tempo::Absolute(140)));
}

#[test]
fn register_scale() {
    let mut reg = Registry::new();
    let result = reg.register_block(Block::Scale(ScaleDef {
        root: NoteName::C,
        scale_type: ScaleType::Major,
    }));
    assert!(result);
    let s = reg.scale().unwrap();
    assert_eq!(s.root, NoteName::C);
}

#[test]
fn play_not_registered() {
    let mut reg = Registry::new();
    let result = reg.register_block(Block::Play(PlayCommand {
        target: PlayTarget::Scene("verse".into()),
        repeat: RepeatSpec::Once,
    }));
    assert!(!result);
}

#[test]
fn stop_not_registered() {
    let mut reg = Registry::new();
    let result = reg.register_block(Block::Stop(StopCommand { target: None }));
    assert!(!result);
}

#[test]
fn include_not_registered() {
    let mut reg = Registry::new();
    let result = reg.register_block(Block::Include(IncludeDef {
        path: "other.lcvgc".into(),
    }));
    assert!(!result);
}

#[test]
fn transport_cache_includes_transport_enabled_device() {
    let mut reg = Registry::new();
    reg.register_block(Block::Device(DeviceDef {
        name: "synth".into(),
        port: "port1".into(),
        transport: true,
    }));
    assert_eq!(reg.transport_enabled_device_names(), &["synth".to_string()]);
}

#[test]
fn transport_cache_excludes_transport_disabled_device() {
    let mut reg = Registry::new();
    reg.register_block(Block::Device(DeviceDef {
        name: "drum".into(),
        port: "port1".into(),
        transport: false,
    }));
    assert!(reg.transport_enabled_device_names().is_empty());
}

#[test]
fn transport_cache_is_sorted_and_complete() {
    let mut reg = Registry::new();
    reg.register_block(Block::Device(DeviceDef {
        name: "zeta".into(),
        port: "p1".into(),
        transport: true,
    }));
    reg.register_block(Block::Device(DeviceDef {
        name: "alpha".into(),
        port: "p2".into(),
        transport: true,
    }));
    reg.register_block(Block::Device(DeviceDef {
        name: "drum".into(),
        port: "p3".into(),
        transport: false,
    }));
    assert_eq!(
        reg.transport_enabled_device_names(),
        &["alpha".to_string(), "zeta".to_string()]
    );
}

#[test]
fn transport_cache_rebuilds_on_device_overwrite() {
    let mut reg = Registry::new();
    reg.register_block(Block::Device(DeviceDef {
        name: "synth".into(),
        port: "port1".into(),
        transport: true,
    }));
    assert_eq!(reg.transport_enabled_device_names(), &["synth".to_string()]);

    reg.register_block(Block::Device(DeviceDef {
        name: "synth".into(),
        port: "port2".into(),
        transport: false,
    }));
    assert!(reg.transport_enabled_device_names().is_empty());
}

