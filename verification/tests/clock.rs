//! Clock arithmetic: tick length, bar length, note values and tempo.

use lcvgc::ast::Tempo;
use lcvgc::clock::{Clock, TimeSignature};

#[test]
fn new_defaults() {
    let c = Clock::new(120);
    assert_eq!(c.bpm(), 120);
    assert_eq!(c.ppq(), 480);
    assert_eq!(*c.time_sig(), TimeSignature::default());
}

#[test]
fn tick_duration_us_bpm120_ppq480() {
    let c = Clock::new(120);
    assert_eq!(c.tick_duration_us(), 1041);
}

#[test]
fn ticks_per_bar_4_4() {
    let c = Clock::new(120);
    assert_eq!(c.ticks_per_bar(), 1920);
}

#[test]
fn ticks_per_bar_3_4() {
    let mut c = Clock::new(120);
    c.set_time_sig(TimeSignature {
        numerator: 3,
        denominator: 4,
    });
    assert_eq!(c.ticks_per_bar(), 1440);
}

#[test]
fn ticks_per_bar_6_8() {
    let mut c = Clock::new(120);
    c.set_time_sig(TimeSignature {
        numerator: 6,
        denominator: 8,
    });
    assert_eq!(c.ticks_per_bar(), 1440);
}

#[test]
fn duration_to_ticks_quarter() {
    let c = Clock::new(120);
    assert_eq!(c.duration_to_ticks(4, false), 480);
}

#[test]
fn duration_to_ticks_eighth() {
    let c = Clock::new(120);
    assert_eq!(c.duration_to_ticks(8, false), 240);
}

#[test]
fn duration_to_ticks_whole() {
    let c = Clock::new(120);
    assert_eq!(c.duration_to_ticks(1, false), 1920);
}

#[test]
fn duration_to_ticks_dotted_quarter() {
    let c = Clock::new(120);
    assert_eq!(c.duration_to_ticks(4, true), 720);
}

#[test]
fn apply_tempo_absolute() {
    let mut c = Clock::new(120);
    c.apply_tempo(&Tempo::Absolute(140));
    assert_eq!(c.bpm(), 140);
}

#[test]
fn apply_tempo_relative() {
    let mut c = Clock::new(120);
    c.apply_tempo(&Tempo::Relative(10));
    assert_eq!(c.bpm(), 130);
}

