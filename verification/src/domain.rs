//! Musical domain values: MIDI channels, note names and chord spellings.

use vstd::prelude::*;

verus! {

/// A MIDI channel, stored zero-based (0..=15).
#[derive(Clone, Copy, Debug, PartialEq, Eq, PartialOrd, Ord, Hash, Structural)]
pub struct MidiChannel {
    index: u8,
}

/// Error returned when a channel number lies outside the MIDI range.
#[derive(Clone, Copy, Debug, PartialEq, Eq, Structural)]
pub struct InvalidChannel {
    /// The rejected number, as it was given.
    pub value: u8,
}

impl MidiChannel {
    /// The zero-based channel number (0..=15).
    pub closed spec fn zero_based(self) -> nat {
        self.index as nat
    }

    /// Every channel value lies in the MIDI range.
    #[verifier::type_invariant]
    closed spec fn in_range(self) -> bool {
        self.index < 16
    }

    /// Builds a channel from its one-based DSL number (1..=16).
    pub fn from_one_based(n: u8) -> (r: Result<MidiChannel, InvalidChannel>)
        ensures
            (1 <= n <= 16) ==> (r matches Ok(c) && c.zero_based() == n - 1),
            !(1 <= n <= 16) ==> r == Err::<MidiChannel, InvalidChannel>(InvalidChannel { value: n }),
    {
        if 1 <= n && n <= 16 {
            Ok(MidiChannel { index: n - 1 })
        } else {
            Err(InvalidChannel { value: n })
        }
    }

    /// Builds a channel from its zero-based wire number (0..=15).
    pub fn from_zero_based(n: u8) -> (r: Result<MidiChannel, InvalidChannel>)
        ensures
            n < 16 ==> (r matches Ok(c) && c.zero_based() == n),
            n >= 16 ==> r == Err::<MidiChannel, InvalidChannel>(InvalidChannel { value: n }),
    {
        if n < 16 {
            Ok(MidiChannel { index: n })
        } else {
            Err(InvalidChannel { value: n })
        }
    }

    /// The one-based channel number (1..=16).
    pub fn as_one_based(&self) -> (r: u8)
        ensures
            r == self.zero_based() + 1,
            1 <= r <= 16,
    {
        proof { use_type_invariant(self); }
        self.index + 1
    }

    /// The zero-based channel number (0..=15).
    pub fn as_zero_based(&self) -> (r: u8)
        ensures
            r == self.zero_based(),
            r < 16,
    {
        proof { use_type_invariant(self); }
        self.index
    }

}

/// A pitch class spelling, with sharps and flats.
#[derive(Clone, Copy, Debug, PartialEq, Eq, Hash, Structural)]
pub enum NoteName {
    C,
    Cs,
    Db,
    D,
    Ds,
    Eb,
    E,
    F,
    Fs,
    Gb,
    G,
    Gs,
    Ab,
    A,
    As,
    Bb,
    B,
}

/// Semitone offset of a pitch class above C.
pub open spec fn semitone_spec(n: NoteName) -> nat {
    match n {
        NoteName::C => 0,
        NoteName::Cs => 1,
        NoteName::Db => 1,
        NoteName::D => 2,
        NoteName::Ds => 3,
        NoteName::Eb => 3,
        NoteName::E => 4,
        NoteName::F => 5,
        NoteName::Fs => 6,
        NoteName::Gb => 6,
        NoteName::G => 7,
        NoteName::Gs => 8,
        NoteName::Ab => 8,
        NoteName::A => 9,
        NoteName::As => 10,
        NoteName::Bb => 10,
        NoteName::B => 11,
    }
}

/// Semitone offset of a pitch class above C.
pub fn semitone(n: NoteName) -> (r: u8)
    ensures
        r == semitone_spec(n),
        r < 12,
{
    match n {
        NoteName::C => 0,
        NoteName::Cs => 1,
        NoteName::Db => 1,
        NoteName::D => 2,
        NoteName::Ds => 3,
        NoteName::Eb => 3,
        NoteName::E => 4,
        NoteName::F => 5,
        NoteName::Fs => 6,
        NoteName::Gb => 6,
        NoteName::G => 7,
        NoteName::Gs => 8,
        NoteName::Ab => 8,
        NoteName::A => 9,
        NoteName::As => 10,
        NoteName::Bb => 10,
        NoteName::B => 11,
    }
}

/// The highest MIDI note number.
pub open spec fn clamp_note(v: int) -> int {
    if v > 127 { 127 } else { v }
}

/// MIDI note number of a pitch (C4 = 60), clamped to the MIDI range.
pub open spec fn note_number_spec(name: NoteName, octave: u8) -> int {
    clamp_note((octave + 1) * 12 + semitone_spec(name))
}

/// MIDI note number of `name` in `octave` (C4 = 60), clamped to 127.
pub fn note_number(name: NoteName, octave: u8) -> (r: u8)
    ensures
        r == note_number_spec(name, octave),
        r <= 127,
{
    let v: u32 = (octave as u32 + 1) * 12 + semitone(name) as u32;
    if v > 127 {
        127
    } else {
        v as u8
    }
}

/// A chord quality written after the root of a chord name (`cm7`, `gmaj7`, ...).
#[derive(Clone, Copy, Debug, PartialEq, Eq, Hash, Structural)]
pub enum ChordSuffix {
    Maj,
    Min,
    Dom7,
    Maj7,
    Min7,
    Dim,
    Dim7,
    Min7b5,
    Aug,
    Sus2,
    Sus4,
    Six,
    Min6,
    Add9,
}

/// Intervals (in semitones above the root) of a chord quality, in notation order.
pub open spec fn chord_intervals_spec(s: ChordSuffix) -> Seq<u8> {
    match s {
        ChordSuffix::Maj => seq![0u8, 4, 7],
        ChordSuffix::Min => seq![0u8, 3, 7],
        ChordSuffix::Dom7 => seq![0u8, 4, 7, 10],
        ChordSuffix::Maj7 => seq![0u8, 4, 7, 11],
        ChordSuffix::Min7 => seq![0u8, 3, 7, 10],
        ChordSuffix::Dim => seq![0u8, 3, 6],
        ChordSuffix::Dim7 => seq![0u8, 3, 6, 9],
        ChordSuffix::Min7b5 => seq![0u8, 3, 6, 10],
        ChordSuffix::Aug => seq![0u8, 4, 8],
        ChordSuffix::Sus2 => seq![0u8, 2, 7],
        ChordSuffix::Sus4 => seq![0u8, 5, 7],
        ChordSuffix::Six => seq![0u8, 4, 7, 9],
        ChordSuffix::Min6 => seq![0u8, 3, 7, 9],
        ChordSuffix::Add9 => seq![0u8, 4, 7, 14],
    }
}

/// Intervals (in semitones above the root) of a chord quality, in notation order.
pub fn chord_intervals(s: &ChordSuffix) -> (r: Vec<u8>)
    ensures
        r@ == chord_intervals_spec(*s),
{
    match s {
        ChordSuffix::Maj => vec![0u8, 4, 7],
        ChordSuffix::Min => vec![0u8, 3, 7],
        ChordSuffix::Dom7 => vec![0u8, 4, 7, 10],
        ChordSuffix::Maj7 => vec![0u8, 4, 7, 11],
        ChordSuffix::Min7 => vec![0u8, 3, 7, 10],
        ChordSuffix::Dim => vec![0u8, 3, 6],
        ChordSuffix::Dim7 => vec![0u8, 3, 6, 9],
        ChordSuffix::Min7b5 => vec![0u8, 3, 6, 10],
        ChordSuffix::Aug => vec![0u8, 4, 8],
        ChordSuffix::Sus2 => vec![0u8, 2, 7],
        ChordSuffix::Sus4 => vec![0u8, 5, 7],
        ChordSuffix::Six => vec![0u8, 4, 7, 9],
        ChordSuffix::Min6 => vec![0u8, 3, 7, 9],
        ChordSuffix::Add9 => vec![0u8, 4, 7, 14],
    }
}

/// MIDI notes of a chord: root note number plus each interval, clamped to 127.
pub open spec fn chord_notes_spec(root: NoteName, octave: u8, s: ChordSuffix) -> Seq<u8> {
    chord_intervals_spec(s).map_values(
        |iv: u8| clamp_note(note_number_spec(root, octave) + iv) as u8,
    )
}

/// Expands a chord name into MIDI note numbers, in notation order.
pub fn chord_notes(root: NoteName, octave: u8, suffix: &ChordSuffix) -> (r: Vec<u8>)
    ensures
        r@ == chord_notes_spec(root, octave, *suffix),
{
    let base = note_number(root, octave);
    let intervals = chord_intervals(suffix);
    let mut out: Vec<u8> = Vec::new();
    let mut i: usize = 0;
    while i < intervals.len()
        invariant
            i <= intervals.len(),
            intervals@ == chord_intervals_spec(*suffix),
            base == note_number_spec(root, octave),
            out@ == chord_notes_spec(root, octave, *suffix).subrange(0, i as int),
        decreases intervals.len() - i,
    {
        let v: u16 = base as u16 + intervals[i] as u16;
        let n: u8 = if v > 127 { 127 } else { v as u8 };
        out.push(n);
        i += 1;
    }
    assert(out@ == chord_notes_spec(root, octave, *suffix));
    out
}

/// Scale qualities accepted by a `scale` block.
#[derive(Clone, Copy, Debug, PartialEq, Eq, Hash, Structural)]
pub enum ScaleType {
    Major,
    Minor,
    HarmonicMinor,
    MelodicMinor,
    Dorian,
    Phrygian,
    Lydian,
    Mixolydian,
    Locrian,
}

} // verus!
