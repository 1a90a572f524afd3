//! MIDI messages produced by the compiler and sent by the playback driver.

use vstd::prelude::*;

use crate::domain::MidiChannel;

verus! {

/// A MIDI message: channel voice messages and the System Real-Time
/// transport messages.
#[derive(Clone, Copy, Debug, PartialEq, Eq, Hash, Structural)]
pub enum MidiMessage {
    NoteOn { channel: MidiChannel, note: u8, velocity: u8 },
    NoteOff { channel: MidiChannel, note: u8, velocity: u8 },
    ControlChange { channel: MidiChannel, cc: u8, value: u8 },
    ProgramChange { channel: MidiChannel, program: u8 },
    Start,
    Stop,
    Continue,
    Clock,
}

impl MidiMessage {
    /// Whether the message is a channel voice message (it carries a channel).
    pub open spec fn has_channel(self) -> bool {
        !(self is Start || self is Stop || self is Continue || self is Clock)
    }

    /// The channel of a channel voice message.
    pub open spec fn channel_spec(self) -> MidiChannel
        recommends
            self.has_channel(),
    {
        match self {
            MidiMessage::NoteOn { channel, .. } => channel,
            MidiMessage::NoteOff { channel, .. } => channel,
            MidiMessage::ControlChange { channel, .. } => channel,
            MidiMessage::ProgramChange { channel, .. } => channel,
            _ => arbitrary(),
        }
    }
}

} // verus!
