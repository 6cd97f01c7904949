use vstd::prelude::*;
use vstd::string::StrSliceExecFns;

use crate::types::MidiMessage;

verus! {

/// The message that a raw MIDI packet stands for, stamped with `timestamp`.
/// A packet of at least three bytes is read as status, first and second data
/// byte; the status byte's high nibble is the kind and its low nibble the
/// channel. A note-on of velocity zero is a note-off; kinds other than
/// note-on, note-off and control change, and shorter packets, give nothing.
pub open spec fn decode_midi(bytes: Seq<u8>, timestamp: u64) -> Option<MidiMessage> {
    if bytes.len() < 3 {
        None
    } else {
        let kind = bytes[0] / 16;
        let channel = (bytes[0] % 16) as u8;
        let data1 = bytes[1];
        let data2 = bytes[2];
        if kind == 9 && data2 > 0 {
            Some(MidiMessage::NoteOn { channel, pitch: data1, velocity: data2, timestamp })
        } else if kind == 9 || kind == 8 {
            Some(MidiMessage::NoteOff { channel, pitch: data1, timestamp })
        } else if kind == 11 {
            Some(MidiMessage::ControlChange { channel, controller: data1, value: data2, timestamp })
        } else {
            None
        }
    }
}

/// Decodes a raw MIDI packet received at `timestamp` (microseconds since
/// start-up).
pub fn parse_midi_message(message: &[u8], timestamp: u64) -> (r: Option<MidiMessage>)
    ensures
        r == decode_midi(message@, timestamp),
{
    if message.len() < 3 {
        return None;
    }
    let first = message[0];
    let status = first & 0xF0;
    let channel = first & 0x0F;
    assert(status == (first / 16) * 16 && channel == first % 16) by (bit_vector)
        requires
            status == first & 0xF0,
            channel == first & 0x0F,
    ;
    let data1 = message[1];
    let data2 = message[2];
    if status == 0x90 {
        if data2 > 0 {
            Some(MidiMessage::NoteOn { channel, pitch: data1, velocity: data2, timestamp })
        } else {
            Some(MidiMessage::NoteOff { channel, pitch: data1, timestamp })
        }
    } else if status == 0x80 {
        Some(MidiMessage::NoteOff { channel, pitch: data1, timestamp })
    } else if status == 0xB0 {
        Some(MidiMessage::ControlChange { channel, controller: data1, value: data2, timestamp })
    } else {
        None
    }
}

/// Every decoded message names a channel below 16, and a decoded note-on
/// always has a nonzero velocity.
pub proof fn lemma_decoded_channel_in_range(bytes: Seq<u8>, timestamp: u64)
    ensures
        decode_midi(bytes, timestamp) matches Some(m) ==> match m {
            MidiMessage::NoteOn { channel, velocity, .. } => channel < 16 && velocity > 0,
            MidiMessage::NoteOff { channel, .. } => channel < 16,
            MidiMessage::ControlChange { channel, .. } => channel < 16,
        },
{
}

/// How a packet decodes, by its status byte: note-on with a nonzero velocity
/// on 0x90..=0x9F, note-off on 0x90..=0x9F with velocity zero and on
/// 0x80..=0x8F, control change on 0xB0..=0xBF whatever its value (zero
/// included), and nothing for any other status byte or a packet shorter than
/// three bytes. The channel is the status byte's offset from the start of its
/// range, the key or controller the second byte, the velocity or value the third.
pub proof fn lemma_decode_by_status_byte(bytes: Seq<u8>, timestamp: u64)
    ensures
        bytes.len() < 3 ==> decode_midi(bytes, timestamp) is None,
        bytes.len() >= 3 && 0x90 <= bytes[0] <= 0x9F && bytes[2] > 0 ==> decode_midi(
            bytes,
            timestamp,
        ) == Some(
            MidiMessage::NoteOn {
                channel: (bytes[0] - 0x90) as u8,
                pitch: bytes[1],
                velocity: bytes[2],
                timestamp,
            },
        ),
        bytes.len() >= 3 && 0x90 <= bytes[0] <= 0x9F && bytes[2] == 0 ==> decode_midi(
            bytes,
            timestamp,
        ) == Some(
            MidiMessage::NoteOff { channel: (bytes[0] - 0x90) as u8, pitch: bytes[1], timestamp },
        ),
        bytes.len() >= 3 && 0x80 <= bytes[0] <= 0x8F ==> decode_midi(bytes, timestamp) == Some(
            MidiMessage::NoteOff { channel: (bytes[0] - 0x80) as u8, pitch: bytes[1], timestamp },
        ),
        bytes.len() >= 3 && 0xB0 <= bytes[0] <= 0xBF ==> decode_midi(bytes, timestamp) == Some(
            MidiMessage::ControlChange {
                channel: (bytes[0] - 0xB0) as u8,
                controller: bytes[1],
                value: bytes[2],
                timestamp,
            },
        ),
        bytes.len() >= 3 && !(0x80 <= bytes[0] <= 0x9F) && !(0xB0 <= bytes[0] <= 0xBF)
            ==> decode_midi(bytes, timestamp) is None,
{
}

/// `needle` occurs as a contiguous run of characters in `haystack`.
pub open spec fn contains_run(haystack: Seq<char>, needle: Seq<char>) -> bool {
    exists|i: int|
        0 <= i && i + needle.len() <= haystack.len() && #[trigger] haystack.subrange(
            i,
            i + needle.len(),
        ) == needle
}

/// Whether `needle` occurs in `haystack` as a contiguous run of characters.
fn str_contains(haystack: &str, needle: &str) -> (r: bool)
    ensures
        r == contains_run(haystack@, needle@),
{
    let hay_len = haystack.unicode_len();
    let needle_len = needle.unicode_len();
    if needle_len > hay_len {
        return false;
    }
    let last_start = hay_len - needle_len;
    let mut start: usize = 0;
    while start <= last_start
        invariant
            hay_len == haystack@.len(),
            needle_len == needle@.len(),
            last_start == hay_len - needle_len,
            start <= last_start + 1,
            forall|i: int|
                0 <= i < start ==> #[trigger] haystack@.subrange(i, i + needle_len) != needle@,
        decreases last_start + 1 - start,
    {
        let mut matched: usize = 0;
        let mut same = true;
        while same && matched < needle_len
            invariant
                hay_len == haystack@.len(),
                needle_len == needle@.len(),
                start + needle_len <= hay_len,
                matched <= needle_len,
                forall|t: int| 0 <= t < matched ==> haystack@[start + t] == needle@[t],
                !same ==> matched < needle_len && haystack@[start + matched as int]
                    != needle@[matched as int],
            decreases needle_len - matched + (if same {
                1int
            } else {
                0int
            }),
        {
            if haystack.get_char(start + matched) == needle.get_char(matched) {
                matched = matched + 1;
            } else {
                same = false;
            }
        }
        if same {
            assert(haystack@.subrange(start as int, start + needle_len) =~= needle@);
            return true;
        }
        assert(haystack@.subrange(start as int, start + needle_len)[matched as int]
            != needle@[matched as int]);
        start = start + 1;
    }
    false
}

/// The name fragment of the loopback port that is preferred as input.
pub open spec fn preferred_port_fragment() -> Seq<char> {
    "Midi Through"@
}

/// `contains_run` is substring containment: a run occurs in a text exactly
/// when the text is the run with some text before and some text after it.
pub proof fn lemma_contains_run_is_substring(haystack: Seq<char>, needle: Seq<char>)
    ensures
        contains_run(haystack, needle) <==> exists|before: Seq<char>, after: Seq<char>|
            haystack == #[trigger] (before + needle + after),
{
    if contains_run(haystack, needle) {
        let i = choose|i: int|
            0 <= i && i + needle.len() <= haystack.len() && #[trigger] haystack.subrange(
                i,
                i + needle.len(),
            ) == needle;
        let before = haystack.subrange(0, i);
        let after = haystack.subrange(i + needle.len(), haystack.len() as int);
        assert(haystack =~= before + needle + after);
    }
    if exists|before: Seq<char>, after: Seq<char>| haystack == #[trigger] (before + needle + after) {
        let (before, after) = choose|before: Seq<char>, after: Seq<char>|
            haystack == #[trigger] (before + needle + after);
        assert(haystack.subrange(before.len() as int, (before.len() + needle.len()) as int) =~= needle);
    }
}

/// The preferred input port is the one named after the ALSA loopback client,
/// "Midi Through".
pub proof fn lemma_preferred_fragment_spelling()
    ensures
        preferred_port_fragment() == seq!['M', 'i', 'd', 'i', ' ', 'T', 'h', 'r', 'o', 'u', 'g', 'h'],
{
    reveal_strlit("Midi Through");
    assert(preferred_port_fragment() =~= seq![
        'M',
        'i',
        'd',
        'i',
        ' ',
        'T',
        'h',
        'r',
        'o',
        'u',
        'g',
        'h',
    ]);
}

/// Picks the input port to connect to, given the ports' names: the first port
/// whose name contains "Midi Through", else the first port; `None` when there
/// is no port at all.
pub fn select_input_port(names: &Vec<String>) -> (r: Option<usize>)
    ensures
        r is None <==> names@.len() == 0,
        r matches Some(i) ==> i < names@.len(),
        r matches Some(i) ==> (if exists|j: int|
            0 <= j < names@.len() && contains_run(
                #[trigger] names@[j]@,
                preferred_port_fragment(),
            ) {
            contains_run(names@[i as int]@, preferred_port_fragment()) && forall|j: int|
                0 <= j < i ==> !contains_run(#[trigger] names@[j]@, preferred_port_fragment())
        } else {
            i == 0
        }),
{
    let n = names.len();
    let mut i: usize = 0;
    while i < n
        invariant
            n == names@.len(),
            i <= n,
            forall|j: int| 0 <= j < i ==> !contains_run(#[trigger] names@[j]@, preferred_port_fragment()),
        decreases n - i,
    {
        if str_contains(names[i].as_str(), "Midi Through") {
            return Some(i);
        }
        i = i + 1;
    }
    if n == 0 {
        None
    } else {
        Some(0)
    }
}

} // verus!
