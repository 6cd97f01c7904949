# midi_piano_roll

A live MIDI piano roll. The verified library (`src/`) holds everything the
program decides: decoding raw MIDI packets, choosing the input port, the
per-channel key and controller tables, the list of falling notes and how a
frame changes them, and the keyboard and drum-lane layout. Every public
function states its result over the abstract `RollState` and spec functions;
`src/laws.rs` proves the properties that relate several operations.

`app/` is the program around it: MIDI input through `midir`, keyboard input,
the clock and all drawing through `macroquad`. Times cross the boundary as
microseconds since start-up; key positions as half white-key widths.
