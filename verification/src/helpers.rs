use vstd::prelude::*;

use crate::constants::{HIGHEST_KEY, LOWEST_KEY, NUM_DRUM_LANES};

verus! {

/// Whether the key at this place in the octave (0 = C) is a black key.
pub open spec fn is_black_in_octave(note: int) -> bool {
    note == 1 || note == 3 || note == 6 || note == 8 || note == 10
}

/// Horizontal offset of the key at this place in the octave (0 = C) from the
/// octave's C, in half white-key widths: a black key sits halfway between its
/// two white neighbours.
pub open spec fn half_offset_in_octave(note: int) -> int {
    if note <= 4 {
        note
    } else {
        note + 1
    }
}

/// Whether the key lies on the 88-key keyboard (A0 to C8).
pub open spec fn on_keyboard(pitch: int) -> bool {
    LOWEST_KEY <= pitch <= HIGHEST_KEY
}

/// Horizontal position of a keyboard key, in half white-key widths from the
/// left edge of A0: an octave spans seven white keys (fourteen halves), and A0
/// sits twelve white keys after the C of octave zero.
pub open spec fn key_half_position(pitch: int) -> int {
    14 * (pitch / 12) + half_offset_in_octave(pitch % 12) - 24
}

/// Where a key is drawn: whether it is black, and its position in half
/// white-key widths; keys off the keyboard give `(false, 0)`.
pub open spec fn key_pos(pitch: int) -> (bool, int) {
    if on_keyboard(pitch) {
        (is_black_in_octave(pitch % 12), key_half_position(pitch))
    } else {
        (false, 0)
    }
}

fn octave_place(note: u8) -> (r: (bool, u8))
    requires
        note < 12,
    ensures
        r.0 == is_black_in_octave(note as int),
        r.1 == half_offset_in_octave(note as int),
{
    match note {
        0 => (false, 0),
        1 => (true, 1),
        2 => (false, 2),
        3 => (true, 3),
        4 => (false, 4),
        5 => (false, 6),
        6 => (true, 7),
        7 => (false, 8),
        8 => (true, 9),
        9 => (false, 10),
        10 => (true, 11),
        _ => (false, 12),
    }
}

/// Whether the key is black and where it is drawn, in half white-key widths
/// from the left edge of the lowest key (so white key `k` is at `2 * k`).
pub fn get_key_pos(pitch: u8) -> (r: (bool, u32))
    ensures
        r.0 == key_pos(pitch as int).0,
        r.1 == key_pos(pitch as int).1,
{
    if pitch < LOWEST_KEY || pitch > HIGHEST_KEY {
        return (false, 0);
    }
    let note_in_octave = pitch % 12;
    let octave = pitch / 12;
    let (is_black, offset) = octave_place(note_in_octave);
    let absolute: u32 = 14 * (octave as u32) + (offset as u32);
    (is_black, absolute - 24)
}

/// Keys further right are drawn further right: the key position grows
/// strictly with the key number across the keyboard.
pub proof fn lemma_key_pos_strictly_increasing(p: int, q: int)
    requires
        on_keyboard(p),
        on_keyboard(q),
        p < q,
    ensures
        key_pos(p).1 < key_pos(q).1,
    decreases q - p,
{
    if q == p + 1 {
        assert(key_half_position(p) < key_half_position(p + 1));
    } else {
        lemma_key_pos_strictly_increasing(p, q - 1);
        lemma_key_pos_strictly_increasing(q - 1, q);
    }
}

/// Black keys, and only they, sit at odd half positions; every key of the
/// keyboard lies between the left edge and the right end of the 52 white keys.
pub proof fn lemma_key_pos_parity(p: int)
    requires
        on_keyboard(p),
    ensures
        key_pos(p).0 <==> key_pos(p).1 % 2 == 1,
        0 <= key_pos(p).1 <= 102,
{
}

/// The keyboard's layout: a key is black exactly when it is C#, D#, F#, G# or
/// A# (1, 3, 6, 8 or 10 semitones above a C); the lowest key sits at the left
/// edge; and each next key is one white-key width further right when both keys
/// are white, half a width when either is black.
pub proof fn lemma_keyboard_layout(p: int)
    requires
        on_keyboard(p),
    ensures
        key_pos(p).0 <==> (p % 12 == 1 || p % 12 == 3 || p % 12 == 6 || p % 12 == 8 || p % 12
            == 10),
        p == 21 ==> key_pos(p).1 == 0,
        on_keyboard(p + 1) ==> key_pos(p + 1).1 == key_pos(p).1 + (if !key_pos(p).0 && !key_pos(
            p + 1,
        ).0 {
            2int
        } else {
            1int
        }),
{
}

/// The lane of the drum highway that a percussion key is drawn in.
pub open spec fn drum_lane_of(pitch: int) -> int {
    if pitch == 35 || pitch == 36 {
        0
    } else if pitch == 38 || pitch == 40 {
        1
    } else if pitch == 42 || pitch == 44 {
        2
    } else if pitch == 46 {
        3
    } else if pitch == 41 || pitch == 43 || pitch == 45 || pitch == 47 || pitch == 48 || pitch
        == 50 {
        4
    } else if pitch == 49 || pitch == 52 || pitch == 55 || pitch == 57 {
        5
    } else if pitch == 51 || pitch == 53 || pitch == 59 {
        6
    } else {
        7
    }
}

/// The label written on a drum lane.
pub open spec fn drum_lane_name(lane: int) -> Seq<char> {
    if lane == 0 {
        "KICK"@
    } else if lane == 1 {
        "SNR"@
    } else if lane == 2 {
        "CHH"@
    } else if lane == 3 {
        "OHH"@
    } else if lane == 4 {
        "TOM"@
    } else if lane == 5 {
        "CRSH"@
    } else if lane == 6 {
        "RIDE"@
    } else {
        "PERC"@
    }
}

/// The label of a drum lane; lanes past the last are labelled as the last.
pub fn drum_lane_label(lane: usize) -> (r: &'static str)
    ensures
        r@ == drum_lane_name(lane as int),
{
    match lane {
        0 => "KICK",
        1 => "SNR",
        2 => "CHH",
        3 => "OHH",
        4 => "TOM",
        5 => "CRSH",
        6 => "RIDE",
        _ => "PERC",
    }
}

/// The drum lane of a percussion key and its label. Every key has a lane:
/// keys that are not listed go to the last lane.
pub fn get_drum_lane(pitch: u8) -> (r: Option<(&'static str, usize)>)
    ensures
        r matches Some((label, lane)) && lane == drum_lane_of(pitch as int) && label@
            == drum_lane_name(lane as int),
{
    match pitch {
        35 | 36 => Some(("KICK", 0)),
        38 | 40 => Some(("SNR", 1)),
        42 | 44 => Some(("CHH", 2)),
        46 => Some(("OHH", 3)),
        41 | 43 | 45 | 47 | 48 | 50 => Some(("TOM", 4)),
        49 | 52 | 55 | 57 => Some(("CRSH", 5)),
        51 | 53 | 59 => Some(("RIDE", 6)),
        _ => Some(("PERC", 7)),
    }
}

/// Every key falls into one of the drum lanes.
pub proof fn lemma_drum_lane_in_range(pitch: int)
    ensures
        0 <= drum_lane_of(pitch) < NUM_DRUM_LANES,
{
}

/// The General MIDI percussion keys of each drum lane and the lane's label:
/// bass drums (35, 36) KICK; snares (38, 40) SNR; closed and pedal hi-hat
/// (42, 44) CHH; open hi-hat (46) OHH; toms (41, 43, 45, 47, 48, 50) TOM;
/// crash cymbals (49, 52, 55, 57) CRSH; ride cymbals and bell (51, 53, 59)
/// RIDE; every other key PERC.
pub proof fn lemma_general_midi_drum_lanes(pitch: int)
    ensures
        drum_lane_of(pitch) == 0 <==> (pitch == 35 || pitch == 36),
        drum_lane_of(pitch) == 1 <==> (pitch == 38 || pitch == 40),
        drum_lane_of(pitch) == 2 <==> (pitch == 42 || pitch == 44),
        drum_lane_of(pitch) == 3 <==> pitch == 46,
        drum_lane_of(pitch) == 4 <==> (pitch == 41 || pitch == 43 || pitch == 45 || pitch == 47
            || pitch == 48 || pitch == 50),
        drum_lane_of(pitch) == 5 <==> (pitch == 49 || pitch == 52 || pitch == 55 || pitch == 57),
        drum_lane_of(pitch) == 6 <==> (pitch == 51 || pitch == 53 || pitch == 59),
        drum_lane_of(pitch) == 7 <==> !(pitch == 35 || pitch == 36 || pitch == 38 || pitch == 40
            || pitch == 42 || pitch == 44 || pitch == 46 || pitch == 41 || pitch == 43 || pitch
            == 45 || pitch == 47 || pitch == 48 || pitch == 50 || pitch == 49 || pitch == 52
            || pitch == 55 || pitch == 57 || pitch == 51 || pitch == 53 || pitch == 59),
        drum_lane_name(0) == "KICK"@ && drum_lane_name(1) == "SNR"@ && drum_lane_name(2)
            == "CHH"@ && drum_lane_name(3) == "OHH"@,
        drum_lane_name(4) == "TOM"@ && drum_lane_name(5) == "CRSH"@ && drum_lane_name(6)
            == "RIDE"@ && drum_lane_name(7) == "PERC"@,
{
}

} // verus!
