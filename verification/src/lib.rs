//! Live CV Gate Coder engine: the verified core of a live-coding MIDI sequencer.
//!
//! The crate holds the data model of the DSL, the registry of named
//! definitions, variable resolution, the clip compiler that turns clip
//! definitions into tick-stamped MIDI events, the clip / scene players
//! that replay those events loop by loop, and the evaluator that applies
//! definition and playback blocks one at a time.

pub mod arith;
pub mod arpeggio;
pub mod arrange;
pub mod ast;
pub mod cc;
pub mod cells;
pub mod chance;
pub mod clock;
pub mod commands;
pub mod compiler;
pub mod connections;
pub mod control;
pub mod domain;
pub mod drum;
pub mod emit;
pub mod error;
pub mod evaluation;
pub mod evaluator;
pub mod imports;
pub mod laws;
pub mod layers;
pub mod midi;
pub mod named_map;
pub mod pitched;
pub mod player;
pub mod registry;
pub mod resolver;
pub mod run;
pub mod scene_build;
pub mod scene_runner;
pub mod scope;
pub mod sorting;
pub mod step;
pub mod text;
pub mod timing;
pub mod transitions;
pub mod voicing;
pub mod walk;
