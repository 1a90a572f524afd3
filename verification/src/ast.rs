//! The parsed form of the DSL: definition blocks (devices, instruments,
//! kits, clips, scenes, sessions, variables, tempo, scale) and playback
//! commands.

use vstd::prelude::*;

use crate::clock::TimeSignature;
use crate::domain::{ChordSuffix, MidiChannel, NoteName, ScaleType};

verus! {

/// `device` block: a logical output and the MIDI port it is bound to.
#[derive(Clone, Debug, PartialEq)]
pub struct DeviceDef {
    pub name: String,
    pub port: String,
    /// Whether Start / Stop / Timing Clock are sent to this device.
    pub transport: bool,
}

/// A named CC of an instrument (`cc cutoff 74`), possibly given by a variable.
#[derive(Clone, Debug, PartialEq)]
pub struct CcMapping {
    pub alias: String,
    pub cc_number: u8,
    /// Variable that supplies the CC number, if the block named one.
    pub cc_number_ref: Option<String>,
}

/// `var` block (or a block-local variable).
#[derive(Clone, Debug, PartialEq)]
pub struct VarDef {
    pub name: String,
    pub value: String,
}

/// Variables that instrument fields referred to, recorded by the parser and
/// resolved at evaluation.
#[derive(Clone, Debug, Default, PartialEq)]
pub struct UnresolvedVarRefs {
    pub device: Option<String>,
    pub channel: Option<String>,
    pub gate_normal: Option<String>,
    pub gate_staccato: Option<String>,
    pub velocity_normal: Option<String>,
    pub velocity_accent: Option<String>,
    pub velocity_ghost: Option<String>,
}

/// Variables that kit instrument fields referred to.
#[derive(Clone, Debug, Default, PartialEq)]
pub struct UnresolvedKitInstrumentVarRefs {
    pub channel: Option<String>,
    pub gate_normal: Option<String>,
    pub gate_staccato: Option<String>,
    pub velocity_normal: Option<String>,
    pub velocity_accent: Option<String>,
    pub velocity_ghost: Option<String>,
}

/// A fixed pitch: note name and octave.
#[derive(Clone, Copy, Debug, PartialEq, Eq, Structural)]
pub struct KitInstrumentNote {
    pub name: NoteName,
    pub octave: u8,
}

/// `instrument` block.
#[derive(Clone, Debug, PartialEq)]
pub struct InstrumentDef {
    pub name: String,
    pub device: String,
    pub channel: MidiChannel,
    pub note: Option<KitInstrumentNote>,
    pub gate_normal: Option<u8>,
    pub gate_staccato: Option<u8>,
    pub velocity_normal: Option<u8>,
    pub velocity_accent: Option<u8>,
    pub velocity_ghost: Option<u8>,
    pub cc_mappings: Vec<CcMapping>,
    pub local_vars: Vec<VarDef>,
    pub unresolved: UnresolvedVarRefs,
}

/// One instrument of a drum kit.
#[derive(Clone, Debug, PartialEq)]
pub struct KitInstrument {
    pub name: String,
    pub channel: MidiChannel,
    pub note: KitInstrumentNote,
    pub gate_normal: Option<u8>,
    pub gate_staccato: Option<u8>,
    pub velocity_normal: Option<u8>,
    pub velocity_accent: Option<u8>,
    pub velocity_ghost: Option<u8>,
    pub unresolved: UnresolvedKitInstrumentVarRefs,
}

/// `kit` block.
#[derive(Clone, Debug, PartialEq)]
pub struct KitDef {
    pub name: String,
    pub device: String,
    pub instruments: Vec<KitInstrument>,
}

/// `scale` block.
#[derive(Clone, Copy, Debug, PartialEq, Eq, Structural)]
pub struct ScaleDef {
    pub root: NoteName,
    pub scale_type: ScaleType,
}

/// `tempo` block: an absolute BPM or a change relative to the current one.
#[derive(Clone, Copy, Debug, PartialEq, Eq, Structural)]
pub enum Tempo {
    Absolute(u16),
    Relative(i16),
}

/// Clip header options.
#[derive(Clone, Copy, Debug, Default, PartialEq, Eq)]
pub struct ClipOptions {
    /// Fixed clip length in bars.
    pub bars: Option<u32>,
    pub time_sig: Option<TimeSignature>,
    pub scale: Option<ScaleDef>,
    /// Whole-clip octave shift (`[>>]` = +1, `[<<]` = -1).
    pub octave_shift: i8,
}

/// Note articulation: how long a note sounds, as a share of its length.
#[derive(Clone, Copy, Debug, PartialEq, Eq, Structural)]
pub enum Articulation {
    Normal,
    Staccato,
    /// An explicit gate percentage.
    GateDirect(u8),
}

/// Order in which an arpeggio sounds its chord tones.
#[derive(Clone, Copy, Debug, PartialEq, Eq, Structural)]
pub enum ArpeggioDirection {
    Up,
    Down,
    UpDown,
    Random,
}

/// `arp(direction, resolution)` suffix of a chord.
#[derive(Clone, Copy, Debug, PartialEq, Eq, Structural)]
pub struct Arpeggio {
    pub direction: ArpeggioDirection,
    /// Note value of one arpeggio step.
    pub resolution: Option<u16>,
}

/// A note-like event of a pitched line.
#[derive(Clone, Copy, Debug, PartialEq, Eq)]
pub enum NoteEvent {
    Single { name: NoteName, octave: Option<u8>, duration: Option<u16>, dotted: bool },
    Rest { duration: Option<u16>, dotted: bool },
    ChordName {
        root: NoteName,
        suffix: ChordSuffix,
        octave: Option<u8>,
        duration: Option<u16>,
        dotted: bool,
        arpeggio: Option<Arpeggio>,
    },
}

/// `(...)*n` repetition: the elements inside the parentheses, `count` times.
#[derive(Debug, PartialEq, Eq)]
pub struct Repetition {
    pub content: Vec<PitchedElement>,
    pub count: u32,
}

/// `>n` jump to the head of bar `n` (1-based).
#[derive(Clone, Copy, Debug, PartialEq, Eq, Structural)]
pub struct BarJump {
    pub bar_number: u32,
}

/// An element of a pitched line.
#[derive(Debug, PartialEq, Eq)]
pub enum PitchedElement {
    /// A note, rest or chord name, its articulation and an explicit velocity.
    Note(NoteEvent, Articulation, Option<u8>),
    /// `[c:4 e g]:2` chord with individually spelled tones.
    ChordBracket {
        notes: Vec<(NoteName, Option<u8>)>,
        duration: Option<u16>,
        dotted: bool,
        articulation: Articulation,
        arpeggio: Option<Arpeggio>,
        velocity: Option<u8>,
    },
    Repetition(Repetition),
    BarJump(BarJump),
    /// `|` snap to a beat boundary.
    PipeSnap,
}

/// `b` is a copy of `a`: the same variant with the same values, and for a
/// repetition a copy of each element of its content.
pub open spec fn same_element(a: PitchedElement, b: PitchedElement) -> bool
    decreases a,
{
    match a {
        PitchedElement::Repetition(r1) => match b {
            PitchedElement::Repetition(r2) => {
                &&& r1.count == r2.count
                &&& r1.content@.len() == r2.content@.len()
                &&& forall|i: int|
                    0 <= i < r1.content@.len() ==> same_element(#[trigger] r1.content@[i], r2.content@[i])
            },
            _ => false,
        },
        PitchedElement::ChordBracket { notes, duration, dotted, articulation, arpeggio, velocity } => match b {
            PitchedElement::ChordBracket {
                notes: notes2,
                duration: duration2,
                dotted: dotted2,
                articulation: articulation2,
                arpeggio: arpeggio2,
                velocity: velocity2,
            } => notes@ == notes2@ && duration == duration2 && dotted == dotted2 && articulation == articulation2
                && arpeggio == arpeggio2 && velocity == velocity2,
            _ => false,
        },
        _ => a == b,
    }
}

/// Copies the tones of a bracket chord.
fn copy_tones(v: &Vec<(NoteName, Option<u8>)>) -> (r: Vec<(NoteName, Option<u8>)>)
    ensures
        r@ == v@,
{
    let mut out: Vec<(NoteName, Option<u8>)> = Vec::new();
    let mut i: usize = 0;
    while i < v.len()
        invariant
            i <= v@.len(),
            out@ == v@.take(i as int),
        decreases v@.len() - i,
    {
        out.push(v[i]);
        proof {
            assert(v@.take(i + 1) =~= v@.take(i as int).push(v@[i as int]));
        }
        i += 1;
    }
    proof {
        assert(v@.take(i as int) =~= v@);
    }
    out
}

/// Copies a list of pitched elements.
fn clone_elements(v: &Vec<PitchedElement>) -> (r: Vec<PitchedElement>)
    ensures
        r@.len() == v@.len(),
        forall|i: int| 0 <= i < v@.len() ==> same_element(#[trigger] v@[i], r@[i]),
    decreases v@,
{
    let mut out: Vec<PitchedElement> = Vec::new();
    let mut i: usize = 0;
    while i < v.len()
        invariant
            i <= v@.len(),
            out@.len() == i,
            forall|j: int| 0 <= j < i ==> same_element(#[trigger] v@[j], out@[j]),
        decreases v@.len() - i,
    {
        proof { assert(decreases_to!(v@ => v@[i as int])); }
        out.push(clone_element(&v[i]));
        i += 1;
    }
    out
}

/// Copies one pitched element.
fn clone_element(e: &PitchedElement) -> (r: PitchedElement)
    ensures
        same_element(*e, r),
    decreases *e,
{
    match e {
        PitchedElement::Note(n, a, v) => PitchedElement::Note(*n, *a, *v),
        PitchedElement::ChordBracket { notes, duration, dotted, articulation, arpeggio, velocity } => {
            PitchedElement::ChordBracket {
                notes: copy_tones(notes),
                duration: *duration,
                dotted: *dotted,
                articulation: *articulation,
                arpeggio: *arpeggio,
                velocity: *velocity,
            }
        },
        PitchedElement::Repetition(rep) => {
            PitchedElement::Repetition(Repetition { content: clone_elements(&rep.content), count: rep.count })
        },
        PitchedElement::BarJump(j) => PitchedElement::BarJump(*j),
        PitchedElement::PipeSnap => PitchedElement::PipeSnap,
    }
}

impl Clone for Repetition {
    fn clone(&self) -> (r: Self) {
        Repetition { content: clone_elements(&self.content), count: self.count }
    }
}

impl Clone for PitchedElement {
    fn clone(&self) -> (r: Self) {
        clone_element(self)
    }
}

/// One line of a pitched clip: an instrument and its elements.
#[derive(Clone, Debug, PartialEq, Eq)]
pub struct PitchedLine {
    pub instrument: String,
    pub elements: Vec<PitchedElement>,
    /// Whether this line starts a new layer (rather than continuing the
    /// timeline of the previous line).
    pub is_layer_start: bool,
}

/// Body of a pitched clip.
#[derive(Clone, Debug, PartialEq, Eq)]
pub struct PitchedClipBody {
    pub lines: Vec<PitchedLine>,
    pub cc_automations: Vec<CcAutomation>,
}

/// A cell of a drum row.
#[derive(Clone, Copy, Debug, PartialEq, Eq, Structural)]
pub enum HitSymbol {
    Normal,
    Accent,
    /// A ghost note (soft hit).
    GhostNote,
    Rest,
}

/// One row of a drum clip: a kit instrument, its hits and optional
/// per-step firing probabilities (0-100).
#[derive(Clone, Debug, PartialEq, Eq)]
pub struct DrumRow {
    pub instrument: String,
    pub hits: Vec<HitSymbol>,
    pub probability: Option<Vec<u8>>,
}

/// Body of a drum clip.
#[derive(Clone, Debug, PartialEq, Eq)]
pub struct DrumClipBody {
    pub kit: String,
    /// Note value of one step (16 = sixteenth).
    pub resolution: u16,
    pub rows: Vec<DrumRow>,
    pub cc_automations: Vec<CcAutomation>,
}

/// Body of a clip.
#[derive(Clone, Debug, PartialEq, Eq)]
pub enum ClipBody {
    Pitched(PitchedClipBody),
    Drum(DrumClipBody),
}

/// `clip` block.
#[derive(Clone, Debug, PartialEq, Eq)]
pub struct ClipDef {
    pub name: String,
    pub options: ClipOptions,
    pub body: ClipBody,
}

/// A token of a CC step line: a value (`None` for `.`), a `|` beat snap, or
/// a `>n` bar jump.
#[derive(Clone, Copy, Debug, PartialEq, Eq, Structural)]
pub enum CellToken {
    Cell(Option<u8>),
    Pipe,
    BarJump(u32),
}

/// The instrument parameter a CC automation drives.
#[derive(Clone, Debug, PartialEq, Eq)]
pub struct CcTarget {
    pub instrument: String,
    pub param: String,
}

/// Step-sequenced CC values, one per sixteenth.
#[derive(Clone, Debug, PartialEq, Eq)]
pub struct CcStepValues {
    pub target: CcTarget,
    pub cells: Vec<CellToken>,
}

/// A CC value placed at `bar:beat` (both 1-based).
#[derive(Clone, Copy, Debug, PartialEq, Eq, Structural)]
pub struct CcTimePoint {
    pub value: u8,
    pub bar: u32,
    pub beat: u32,
}

/// Shape of a ramp between two time points.
#[derive(Clone, Copy, Debug, PartialEq, Eq, Structural)]
pub enum Interpolation {
    /// No ramp: the target value is held at every step.
    NoRamp,
    Linear,
    Exponential,
}

/// A time point, optionally ramping to a second one.
#[derive(Clone, Copy, Debug, PartialEq, Eq)]
pub struct CcTimeSegment {
    pub from: CcTimePoint,
    pub to: Option<(Interpolation, CcTimePoint)>,
}

/// Time-point CC automation.
#[derive(Clone, Debug, PartialEq, Eq)]
pub struct CcTimeValues {
    pub target: CcTarget,
    pub segments: Vec<CcTimeSegment>,
}

/// A CC automation line of a clip.
#[derive(Clone, Debug, PartialEq, Eq)]
pub enum CcAutomation {
    Step(CcStepValues),
    Time(CcTimeValues),
}

/// A candidate of a shuffled scene entry and its weight.
#[derive(Clone, Debug, PartialEq, Eq)]
pub struct ShuffleCandidate {
    pub clip: String,
    pub weight: u32,
}

/// An entry of a scene.
#[derive(Clone, Debug, PartialEq, Eq)]
pub enum SceneEntry {
    /// A clip (one of the candidates), an optional probability digit
    /// (0-9, tenths) and whether it starts muted.
    Clip { candidates: Vec<ShuffleCandidate>, probability: Option<u8>, muted: bool },
    Tempo(Tempo),
}

/// `scene` block.
#[derive(Clone, Debug, PartialEq, Eq)]
pub struct SceneDef {
    pub name: String,
    pub entries: Vec<SceneEntry>,
}

/// How often a scene or session is played.
#[derive(Clone, Copy, Debug, PartialEq, Eq, Structural)]
pub enum RepeatSpec {
    Once,
    Count(u32),
    Loop,
}

/// An entry of a session: a scene and how often it repeats.
#[derive(Clone, Debug, PartialEq, Eq)]
pub struct SessionEntry {
    pub scene: String,
    pub repeat: RepeatSpec,
}

/// `session` block.
#[derive(Clone, Debug, PartialEq, Eq)]
pub struct SessionDef {
    pub name: String,
    pub entries: Vec<SessionEntry>,
}

/// What a `play` command starts.
#[derive(Clone, Debug, PartialEq, Eq)]
pub enum PlayTarget {
    Scene(String),
    Session(String),
}

/// `play` command.
#[derive(Clone, Debug, PartialEq, Eq)]
pub struct PlayCommand {
    pub target: PlayTarget,
    pub repeat: RepeatSpec,
}

/// `stop` command.
#[derive(Clone, Debug, PartialEq, Eq)]
pub struct StopCommand {
    pub target: Option<String>,
}

/// `pause` command.
#[derive(Clone, Debug, PartialEq, Eq)]
pub struct PauseCommand {
    pub target: Option<String>,
}

/// `resume` command.
#[derive(Clone, Debug, PartialEq, Eq)]
pub struct ResumeCommand {
    pub target: Option<String>,
}

/// `mute <clip>` command.
#[derive(Clone, Debug, PartialEq, Eq)]
pub struct MuteCommand {
    pub target: String,
}

/// `unmute <clip>` command.
#[derive(Clone, Debug, PartialEq, Eq)]
pub struct UnmuteCommand {
    pub target: String,
}

/// `include` directive.
#[derive(Clone, Debug, PartialEq, Eq)]
pub struct IncludeDef {
    pub path: String,
}

/// A top-level block of a source file.
#[derive(Clone, Debug, PartialEq)]
pub enum Block {
    Device(DeviceDef),
    Instrument(InstrumentDef),
    Kit(KitDef),
    Clip(ClipDef),
    Scene(SceneDef),
    Session(SessionDef),
    Var(VarDef),
    Tempo(Tempo),
    Scale(ScaleDef),
    Play(PlayCommand),
    Stop(StopCommand),
    Pause(PauseCommand),
    Resume(ResumeCommand),
    Mute(MuteCommand),
    Unmute(UnmuteCommand),
    Include(IncludeDef),
}

} // verus!
