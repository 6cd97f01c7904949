use vstd::prelude::*;

use crate::constants::{NUM_CHANNELS, NUM_CONTROLLERS, NUM_PITCHES};

verus! {

/// A decoded MIDI channel message. Timestamps are microseconds since start-up.
#[derive(Clone, Copy, Debug, PartialEq, Eq, Structural)]
pub enum MidiMessage {
    NoteOn { channel: u8, pitch: u8, velocity: u8, timestamp: u64 },
    NoteOff { channel: u8, pitch: u8, timestamp: u64 },
    ControlChange { channel: u8, controller: u8, value: u8, timestamp: u64 },
}

impl MidiMessage {
    /// The channel and the key or controller number are within the per-channel
    /// tables, so that the message addresses one of their cells.
    pub open spec fn fits_tables(self) -> bool {
        match self {
            MidiMessage::NoteOn { channel, pitch, .. } => channel < NUM_CHANNELS && pitch
                < NUM_PITCHES,
            MidiMessage::NoteOff { channel, pitch, .. } => channel < NUM_CHANNELS && pitch
                < NUM_PITCHES,
            MidiMessage::ControlChange { channel, controller, .. } => channel < NUM_CHANNELS
                && controller < NUM_CONTROLLERS,
        }
    }

    /// Whether the message addresses a cell of the per-channel tables.
    pub fn is_in_table_range(&self) -> (r: bool)
        ensures
            r == self.fits_tables(),
    {
        match *self {
            MidiMessage::NoteOn { channel, pitch, .. } => (channel as usize) < NUM_CHANNELS
                && (pitch as usize) < NUM_PITCHES,
            MidiMessage::NoteOff { channel, pitch, .. } => (channel as usize) < NUM_CHANNELS
                && (pitch as usize) < NUM_PITCHES,
            MidiMessage::ControlChange { channel, controller, .. } => (channel as usize)
                < NUM_CHANNELS && (controller as usize) < NUM_CONTROLLERS,
        }
    }
}

/// A note on the roll: when it started and, once released, when it ended.
#[derive(Clone, Copy, Debug, PartialEq, Eq, Structural)]
pub struct NoteInfo {
    pub channel: u8,
    pub pitch: u8,
    pub velocity: u8,
    pub start_time: u64,
    pub end_time: Option<u64>,
}

impl NoteInfo {
    /// The note is still held on this channel and key.
    pub open spec fn is_open_for(self, channel: u8, pitch: u8) -> bool {
        self.channel == channel && self.pitch == pitch && self.end_time is None
    }
}

} // verus!
