//! The devices whose port could not be opened, as the evaluator records
//! them.

use lcvgc::evaluator::Evaluator;

#[test]
fn device_connection_error_record_and_get() {
    let mut ev = Evaluator::new(120);
    assert!(ev.device_connection_errors().is_empty());
    ev.record_device_connection_error("synth".into(), "port_a".into(), "not found".into());
    assert_eq!(ev.device_connection_errors().len(), 1);
    let entry = ev.device_connection_errors().get("synth").expect("synth recorded");
    assert_eq!(entry.port, "port_a");
    assert_eq!(entry.message, "not found");
}

#[test]
fn device_connection_error_overwrites_on_re_record() {
    let mut ev = Evaluator::new(120);
    ev.record_device_connection_error("synth".into(), "port_a".into(), "first".into());
    ev.record_device_connection_error("synth".into(), "port_b".into(), "second".into());
    let entry = ev.device_connection_errors().get("synth").unwrap();
    assert_eq!(entry.port, "port_b");
    assert_eq!(entry.message, "second");
    assert_eq!(ev.device_connection_errors().len(), 1);
}

#[test]
fn device_connection_error_clear_removes_entry() {
    let mut ev = Evaluator::new(120);
    ev.record_device_connection_error("synth".into(), "port_a".into(), "err".into());
    ev.clear_device_connection_error("synth");
    assert!(ev.device_connection_errors().get("synth").is_none());
}

#[test]
fn device_connection_error_clear_noop_for_missing_device() {
    let mut ev = Evaluator::new(120);
    ev.clear_device_connection_error("ghost");
    assert!(ev.device_connection_errors().is_empty());
}

#[test]
fn clearing_one_device_keeps_the_others() {
    let mut ev = Evaluator::new(120);
    ev.record_device_connection_error("a".into(), "pa".into(), "x".into());
    ev.record_device_connection_error("b".into(), "pb".into(), "y".into());
    ev.record_device_connection_error("c".into(), "pc".into(), "z".into());
    ev.clear_device_connection_error("b");
    assert_eq!(ev.device_connection_errors().len(), 2);
    assert!(ev.device_connection_errors().get("b").is_none());
    assert_eq!(ev.device_connection_errors().get("a").unwrap().port, "pa");
    assert_eq!(ev.device_connection_errors().get("c").unwrap().message, "z");
}
