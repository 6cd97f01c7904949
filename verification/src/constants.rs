use vstd::prelude::*;

verus! {

/// Number of MIDI channels.
pub const NUM_CHANNELS: usize = 16;

/// Number of MIDI key numbers per channel.
pub const NUM_PITCHES: usize = 128;

/// Number of MIDI controller numbers per channel.
pub const NUM_CONTROLLERS: usize = 128;

/// Size of the table of held keys, indexed by channel and key number.
pub const KEY_TABLE_SIZE: usize = NUM_CHANNELS * NUM_PITCHES;

/// Size of the table of controller values, indexed by channel and controller number.
pub const CC_TABLE_SIZE: usize = NUM_CHANNELS * NUM_CONTROLLERS;

/// The General MIDI percussion channel (channel 10, counted from one).
pub const DRUM_CHANNEL: u8 = 9;

/// Number of drum lanes of the drum highway.
pub const NUM_DRUM_LANES: usize = 8;

/// Time unit of all timestamps: microseconds per second.
pub const MICROS_PER_SEC: u64 = 1_000_000;

/// How long a controller value stays on the controller monitor, in microseconds.
pub const CC_HUD_TIMEOUT_US: u64 = 3_000_000;

/// Scrolling speed of the falling notes, in pixels per second.
pub const NOTE_SPEED_PX_PER_SEC: u64 = 150;

/// Lowest key of an 88-key piano (A0).
pub const LOWEST_KEY: u8 = 21;

/// Highest key of an 88-key piano (C8).
pub const HIGHEST_KEY: u8 = 108;

} // verus!
