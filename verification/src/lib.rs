//! Event handling and layout rules of a live MIDI piano roll: decoding of
//! raw MIDI bytes, the per-channel key and controller tables, the list of
//! falling notes, and the keyboard and drum-lane geometry.

pub mod constants;
pub mod types;
pub mod helpers;
pub mod midi;
pub mod app;
pub mod laws;

pub use app::{KeyPresses, PianoRollApp, RollState};
pub use helpers::{drum_lane_label, get_drum_lane, get_key_pos};
pub use midi::{parse_midi_message, select_input_port};
pub use types::{MidiMessage, NoteInfo};
