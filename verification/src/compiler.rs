//! Compiled clips: tick-stamped MIDI events with the groups that the
//! player rerolls every loop, and the compilation of clip definitions into
//! them.

use vstd::prelude::*;

use crate::arrange::{
    apply_octave_shift, bars_warning_texts, bars_warnings, drums_after, drums_limited, kept_events, limit_to, octave_shift_spec,
    randoms_after, randoms_limited,
};
use crate::ast::{ClipBody, ClipDef};
use crate::clock::{ticks_per_bar_spec, Clock};
use crate::drum::{compile_drum, drum_spec, view_drum_groups, DrumGroupView};
use crate::emit::{view_events, view_groups, EventView};
use crate::error::EngineError;
use crate::layers::{compile_pitched, pitched_spec};
use crate::midi::MidiMessage;
use crate::registry::{Registry, RegistryModel};
use crate::sorting::{drum_indices_below, random_indices_below, resorted_drums, resorted_randoms, sort_clip, stable_sorted, stale_index_failure};
use crate::text::owned;

verus! {

/// Why a clip does not compile.
pub enum CompileFailure {
    /// An instrument named by the clip is not registered (or not in the kit).
    UnknownInstrument(Seq<char>),
    /// The clip's kit is not registered.
    UnknownKit(Seq<char>),
    /// Any other compile error, with its message.
    Message(Seq<char>),
}

/// The engine error `e` reports the failure `f`.
pub open spec fn reports(e: EngineError, f: CompileFailure) -> bool {
    match f {
        CompileFailure::UnknownInstrument(n) => e matches EngineError::UnknownInstrument(s) && s@ == n,
        CompileFailure::UnknownKit(n) => e matches EngineError::UnknownKit(s) && s@ == n,
        CompileFailure::Message(m) => e matches EngineError::CompileError(s) && s@ == m,
    }
}

/// A MIDI message at a tick, with the logical device it is sent to (the
/// empty name routes to the default output).
#[derive(Clone, Debug, PartialEq, Eq)]
pub struct MidiEvent {
    pub tick: u64,
    pub message: MidiMessage,
    pub device: String,
}

impl MidiEvent {
    /// An event at `tick` carrying `message` for `device`.
    pub fn new(tick: u64, message: MidiMessage, device: &str) -> (r: MidiEvent)
        ensures
            r.tick == tick,
            r.message == message,
            r.device@ == device@,
    {
        MidiEvent { tick, message, device: owned(device) }
    }
}

/// Events of one drum step that share one probability roll per loop.
#[derive(Clone, Debug, PartialEq, Eq)]
pub struct DrumProbabilityGroup {
    /// Indices into the clip's events.
    pub event_indices: Vec<usize>,
    /// Chance of sounding, 0-100.
    pub probability: u8,
}

/// Alternatives of which exactly one sounds per loop (`arp(random)`); each
/// candidate is a list of indices into the clip's events.
#[derive(Clone, Debug, PartialEq, Eq)]
pub struct RandomChoiceGroup {
    pub candidates: Vec<Vec<usize>>,
}

/// A compiled clip.
#[derive(Clone, Debug)]
pub struct CompiledClip {
    /// Events sorted by tick (note-ons before controller changes before
    /// note-offs at the same tick).
    pub events: Vec<MidiEvent>,
    /// Length of the clip in ticks.
    pub total_ticks: u64,
    /// Warnings raised while compiling.
    pub warnings: Vec<String>,
    pub drum_mask_groups: Vec<DrumProbabilityGroup>,
    pub random_choice_groups: Vec<RandomChoiceGroup>,
}

/// A compiled clip as values.
pub struct ClipView {
    pub events: Seq<EventView>,
    pub total_ticks: u64,
    pub warnings: Seq<Seq<char>>,
    pub drums: Seq<DrumGroupView>,
    pub randoms: Seq<Seq<Seq<usize>>>,
}

/// A compiled clip as values.
pub open spec fn view_clip(c: CompiledClip) -> ClipView {
    ClipView {
        events: view_events(c.events@),
        total_ticks: c.total_ticks,
        warnings: c.warnings@.map_values(|w: String| w@),
        drums: view_drum_groups(c.drum_mask_groups@),
        randoms: view_groups(c.random_choice_groups@),
    }
}

/// The events and groups of a clip body before the `bars` limit and the
/// sort, with its musical end.
pub struct RawClip {
    pub events: Seq<EventView>,
    pub drums: Seq<DrumGroupView>,
    pub randoms: Seq<Seq<Seq<usize>>>,
    pub end: u64,
}

/// A clip body compiled: a pitched body with the clip's octave shift
/// applied, or a drum body.
pub open spec fn raw_clip(reg: RegistryModel, clock: Clock, clip: ClipDef) -> Result<RawClip, CompileFailure> {
    match clip.body {
        ClipBody::Pitched(b) => match pitched_spec(reg, clock, clip.options.bars, b) {
            Err(f) => Err(f),
            Ok(acc) => match octave_shift_spec(acc.events, clip.options.octave_shift) {
                Err(m) => Err(CompileFailure::Message(m)),
                Ok(evs) => Ok(RawClip { events: evs, drums: Seq::empty(), randoms: acc.groups, end: acc.end }),
            },
        },
        ClipBody::Drum(b) => match drum_spec(reg, clock, clip.options.bars, b) {
            Err(f) => Err(f),
            Ok((st, end)) => Ok(RawClip { events: st.events, drums: st.groups, randoms: Seq::empty(), end: end as u64 }),
        },
    }
}

/// A clip under its `bars` limit: the events and groups that stay, the
/// clip length (the bars' ticks, or the musical end without a limit) and
/// the warnings.
pub struct Limited {
    pub events: Seq<EventView>,
    pub drums: Seq<DrumGroupView>,
    pub randoms: Seq<Seq<Seq<usize>>>,
    pub total: u64,
    pub warnings: Seq<Seq<char>>,
}

/// The `bars` limit applied to a compiled body.
pub open spec fn limited(raw: RawClip, clock: Clock, name: Seq<char>, bars: Option<u32>) -> Limited {
    match bars {
        None => Limited { events: raw.events, drums: raw.drums, randoms: raw.randoms, total: raw.end, warnings: Seq::empty() },
        Some(b) => {
            let max = ticks_per_bar_spec(clock.ppq_spec(), clock.time_sig_spec()) * b;
            Limited {
                events: kept_events(raw.events, max, raw.events.len() as int),
                drums: drums_after(raw.events, max, raw.drums, raw.drums.len() as int),
                randoms: randoms_after(raw.events, max, raw.randoms, raw.randoms.len() as int),
                total: max as u64,
                warnings: bars_warnings(raw.events, max, name, b),
            }
        },
    }
}

/// A compiled clip: its body compiled, limited to its bars, and sorted.
pub open spec fn clip_spec(reg: RegistryModel, clock: Clock, clip: ClipDef) -> Result<ClipView, CompileFailure> {
    match raw_clip(reg, clock, clip) {
        Err(f) => Err(f),
        Ok(raw) => {
            let lim = limited(raw, clock, clip.name@, clip.options.bars);
            if drum_indices_below(lim.drums, lim.events.len() as int) && random_indices_below(lim.randoms, lim.events.len() as int) {
                Ok(
                    ClipView {
                        events: stable_sorted(lim.events),
                        total_ticks: lim.total,
                        warnings: lim.warnings,
                        drums: resorted_drums(lim.events, lim.drums),
                        randoms: resorted_randoms(lim.events, lim.randoms),
                    },
                )
            } else {
                Err(CompileFailure::Message(stale_index_failure()))
            }
        },
    }
}

/// Compiles a clip definition into tick-stamped MIDI events: see
/// `clip_spec`.
pub fn compile_clip(clip: &ClipDef, clock: &Clock, registry: &Registry) -> (r: Result<CompiledClip, EngineError>)
    requires
        registry.wf(),
    ensures
        match clip_spec(registry@, *clock, *clip) {
            Ok(v) => r matches Ok(c) && view_clip(c) == v,
            Err(f) => r matches Err(e) && reports(e, f),
        },
{
    let (events, drums, randoms, end) = match &clip.body {
        ClipBody::Pitched(body) => {
            let (mut evts, randoms, end) = match compile_pitched(body, clock, registry, clip.options.bars) {
                Ok(x) => x,
                Err(e) => return Err(e),
            };
            if let Err(e) = apply_octave_shift(&mut evts, clip.options.octave_shift) {
                return Err(e);
            }
            let drums: Vec<DrumProbabilityGroup> = Vec::new();
            assert(view_drum_groups(drums@) =~= Seq::<DrumGroupView>::empty());
            (evts, drums, randoms, end)
        },
        ClipBody::Drum(body) => {
            let (evts, drums, end) = match compile_drum(body, clock, registry, clip.options.bars) {
                Ok(x) => x,
                Err(e) => return Err(e),
            };
            let randoms: Vec<RandomChoiceGroup> = Vec::new();
            assert(view_groups(randoms@) =~= Seq::<Seq<Seq<usize>>>::empty());
            (evts, drums, randoms, end)
        },
    };
    let ghost raw = RawClip {
        events: view_events(events@),
        drums: view_drum_groups(drums@),
        randoms: view_groups(randoms@),
        end,
    };
    assert(raw_clip(registry@, *clock, *clip) == Ok::<RawClip, CompileFailure>(raw));
    let (events, drums, randoms, total, warnings) = match clip.options.bars {
        None => {
            let w: Vec<String> = Vec::new();
            (events, drums, randoms, end, w)
        },
        Some(bars) => {
            let bar_ticks = clock.ticks_per_bar();
            proof {
                assert((bar_ticks as int) * (bars as int) <= (0xffff * 0xff * 4) * 0xffff_ffff) by (nonlinear_arith)
                    requires
                        bar_ticks <= 0xffff * 0xff * 4,
                        bars <= 0xffff_ffff,
                ;
            }
            let max = bar_ticks * (bars as u64);
            let (kept, map, clamps, drops) = limit_to(&events, max);
            let d2 = drums_limited(&drums, &map, Ghost(view_events(events@)), Ghost(max as int));
            let g2 = randoms_limited(&randoms, &map, Ghost(view_events(events@)), Ghost(max as int));
            let w = bars_warning_texts(&clip.name, bars, clamps, drops);
            (kept, d2, g2, max, w)
        },
    };
    let ghost lim = limited(raw, *clock, clip.name@, clip.options.bars);
    assert(view_events(events@) == lim.events);
    assert(view_drum_groups(drums@) == lim.drums);
    assert(view_groups(randoms@) == lim.randoms);
    assert(total == lim.total);
    assert(warnings@.map_values(|w: String| w@) =~= lim.warnings);
    match sort_clip(&events, &drums, &randoms) {
        Ok((sorted, d3, g3)) => Ok(
            CompiledClip { events: sorted, total_ticks: total, warnings, drum_mask_groups: d3, random_choice_groups: g3 },
        ),
        Err(e) => Err(e),
    }
}

} // verus!
