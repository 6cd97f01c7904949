use vstd::prelude::*;

use crate::app::{
    cc_after_expiry, cc_lines, cc_slot, closed_at, last_open_note, latest_note_of,
    note_on_screen, slot, KeyPresses, RollState,
};
use crate::constants::{CC_TABLE_SIZE, KEY_TABLE_SIZE, NUM_CHANNELS, NUM_CONTROLLERS, NUM_PITCHES};
use crate::types::{MidiMessage, NoteInfo};

verus! {

/// `last_open_note` finds the most recent note still held on the channel and
/// key, and finds nothing exactly when no such note is held.
pub proof fn lemma_last_open_note(notes: Seq<NoteInfo>, channel: u8, pitch: u8)
    ensures
        last_open_note(notes, channel, pitch) matches Some(i) ==> {
            &&& 0 <= i < notes.len()
            &&& notes[i].is_open_for(channel, pitch)
            &&& forall|j: int| i < j < notes.len() ==> !(#[trigger] notes[j]).is_open_for(channel, pitch)
        },
        last_open_note(notes, channel, pitch) is None ==> forall|j: int|
            0 <= j < notes.len() ==> !(#[trigger] notes[j]).is_open_for(channel, pitch),
    decreases notes.len(),
{
    if notes.len() > 0 {
        lemma_last_open_note(notes.drop_last(), channel, pitch);
        assert forall|j: int| 0 <= j < notes.len() - 1 implies notes.drop_last()[j] == notes[j] by {}
    }
}

/// A note-on followed by the matching note-off leaves one more note on the
/// roll, spanning from the note-on's time to the note-off's time, and leaves
/// the key released; nothing else changes.
pub proof fn lemma_note_on_then_off(
    s: RollState,
    channel: u8,
    pitch: u8,
    velocity: u8,
    on_time: u64,
    off_time: u64,
)
    requires
        s.wf(),
        channel < NUM_CHANNELS,
        pitch < NUM_PITCHES,
    ensures
        s.after_message(
            MidiMessage::NoteOn { channel, pitch, velocity, timestamp: on_time },
        ).after_message(MidiMessage::NoteOff { channel, pitch, timestamp: off_time }) == s.with_notes(
            s.notes.push(
                NoteInfo {
                    channel,
                    pitch,
                    velocity,
                    start_time: on_time,
                    end_time: Some(off_time),
                },
            ),
        ).with_active(s.active.update(slot(channel as int, pitch as int), 0)),
{
    let s1 = s.after_message(MidiMessage::NoteOn { channel, pitch, velocity, timestamp: on_time });
    assert(last_open_note(s1.notes, channel, pitch) == Some(s.notes.len() as int));
    let s2 = s1.after_message(MidiMessage::NoteOff { channel, pitch, timestamp: off_time });
    assert(s2.notes =~= s.notes.push(
        NoteInfo { channel, pitch, velocity, start_time: on_time, end_time: Some(off_time) },
    ));
    assert(s2.active =~= s.active.update(slot(channel as int, pitch as int), 0));
    assert(s2 =~= s.with_notes(
        s.notes.push(
            NoteInfo { channel, pitch, velocity, start_time: on_time, end_time: Some(off_time) },
        ),
    ).with_active(s.active.update(slot(channel as int, pitch as int), 0)));
}

/// A message changes only its own cell of the tables: a note-on sets its key
/// to the velocity, a note-off clears it, a control change records its value
/// and time; every other cell of either table (`k` in the held-key table,
/// `c` in the controller table), and the display switches, stay as they were.
pub proof fn lemma_message_touches_own_cell(s: RollState, m: MidiMessage, k: int, c: int)
    requires
        s.wf(),
        m.fits_tables(),
        0 <= k < KEY_TABLE_SIZE,
        0 <= c < CC_TABLE_SIZE,
    ensures
        s.after_message(m).wf(),
        s.after_message(m).show_drums == s.show_drums && s.after_message(m).show_cc == s.show_cc
            && s.after_message(m).show_hints == s.show_hints && s.after_message(m).show_legend
            == s.show_legend && s.after_message(m).show_velocity == s.show_velocity,
        match m {
            MidiMessage::NoteOn { channel, pitch, velocity, .. } => {
                &&& s.after_message(m).active[k] == (if k == slot(channel as int, pitch as int) {
                    velocity
                } else {
                    s.active[k]
                })
                &&& s.after_message(m).cc == s.cc
            },
            MidiMessage::NoteOff { channel, pitch, .. } => {
                &&& s.after_message(m).active[k] == (if k == slot(channel as int, pitch as int) {
                    0
                } else {
                    s.active[k]
                })
                &&& s.after_message(m).cc == s.cc
            },
            MidiMessage::ControlChange { channel, controller, value, timestamp } => {
                &&& s.after_message(m).cc[c] == (if c == cc_slot(channel as int, controller as int) {
                    Some((value, timestamp))
                } else {
                    s.cc[c]
                })
                &&& s.after_message(m).active == s.active
                &&& s.after_message(m).notes == s.notes
            },
        },
{
}

/// A note-off releases at most one note: the most recent note still held on
/// its channel and key, which keeps its channel, key, velocity and start and
/// gets the note-off's time as its end; all other notes stay as they were and
/// no note is added or removed.
pub proof fn lemma_note_off_releases_last_held(
    s: RollState,
    channel: u8,
    pitch: u8,
    timestamp: u64,
    j: int,
)
    requires
        0 <= j < s.notes.len(),
    ensures
        s.after_message(MidiMessage::NoteOff { channel, pitch, timestamp }).notes.len()
            == s.notes.len(),
        s.after_message(MidiMessage::NoteOff { channel, pitch, timestamp }).notes[j] == (if s.notes[j].is_open_for(channel, pitch)
            && forall|i: int| j < i < s.notes.len() ==> !(#[trigger] s.notes[i]).is_open_for(channel, pitch) {
            NoteInfo { end_time: Some(timestamp), ..s.notes[j] }
        } else {
            s.notes[j]
        }),
{
    lemma_last_open_note(s.notes, channel, pitch);
}

/// After a reset no key is held and no note is held; every note keeps its
/// channel, key, velocity and start, and the notes that were held end at the
/// reset's time.
pub proof fn lemma_reset_releases_everything(s: RollState, now: u64)
    requires
        s.wf(),
    ensures
        s.after_reset(now).wf(),
        s.after_reset(now).notes.len() == s.notes.len(),
        forall|k: int| 0 <= k < KEY_TABLE_SIZE ==> #[trigger] s.after_reset(now).active[k] == 0,
        forall|j: int|
            0 <= j < s.notes.len() ==> {
                let before = s.notes[j];
                let after = #[trigger] s.after_reset(now).notes[j];
                &&& after.end_time is Some
                &&& after.channel == before.channel && after.pitch == before.pitch
                &&& after.velocity == before.velocity && after.start_time == before.start_time
                &&& before.end_time is Some ==> after == before
                &&& before.end_time is None ==> after.end_time == Some(now)
            },
{
}

/// Pressing the same toggles twice restores every display switch, and
/// toggling touches nothing but the switches.
pub proof fn lemma_toggles_twice_restore(s: RollState, keys: KeyPresses)
    ensures
        s.after_toggles(keys).after_toggles(keys) == s,
        s.after_toggles(keys).notes == s.notes,
        s.after_toggles(keys).active == s.active,
        s.after_toggles(keys).cc == s.cc,
{
    assert(s.after_toggles(keys).after_toggles(keys) =~= s);
}

/// Filtering a sequence twice by the same predicate is filtering it once.
proof fn lemma_filter_twice<A>(s: Seq<A>, pred: spec_fn(A) -> bool)
    ensures
        s.filter(pred).filter(pred) == s.filter(pred),
    decreases s.len(),
{
    reveal_with_fuel(Seq::<_>::filter, 2);
    if s.len() > 0 {
        lemma_filter_twice(s.drop_last(), pred);
        let sub = s.drop_last().filter(pred);
        if pred(s.last()) {
            assert(sub.push(s.last()).drop_last() =~= sub);
        }
    }
}

/// Pruning never drops a held note, keeps only notes that are on screen and
/// were on the roll, and pruning twice at the same time and height is pruning
/// once.
pub proof fn lemma_prune_keeps_held_notes(s: RollState, now: u64, screen_h: u32)
    ensures
        forall|j: int|
            0 <= j < s.notes.len() && (#[trigger] s.notes[j]).end_time is None ==> s.after_prune(
                now,
                screen_h,
            ).notes.contains(s.notes[j]),
        forall|j: int|
            0 <= j < s.after_prune(now, screen_h).notes.len() ==> note_on_screen(
                #[trigger] s.after_prune(now, screen_h).notes[j],
                now,
                screen_h,
            ) && s.notes.contains(s.after_prune(now, screen_h).notes[j]),
        s.after_prune(now, screen_h).after_prune(now, screen_h) == s.after_prune(now, screen_h),
        s.after_prune(now, screen_h).active == s.active && s.after_prune(now, screen_h).cc == s.cc,
{
    broadcast use vstd::seq_lib::group_filter_ensures;

    let keep = |n: NoteInfo| note_on_screen(n, now, screen_h);
    lemma_filter_twice(s.notes, keep);
    assert forall|j: int|
        0 <= j < s.notes.len() && (#[trigger] s.notes[j]).end_time is None implies s.after_prune(
        now,
        screen_h,
    ).notes.contains(s.notes[j]) by {
        assert(keep(s.notes[j]));
        s.notes.lemma_filter_contains(keep, j);
    }
    assert forall|j: int| 0 <= j < s.after_prune(now, screen_h).notes.len() implies note_on_screen(
        #[trigger] s.after_prune(now, screen_h).notes[j],
        now,
        screen_h,
    ) && s.notes.contains(s.after_prune(now, screen_h).notes[j]) by {
        s.notes.lemma_filter_pred(keep, j);
        s.notes.lemma_filter_contains_rev(keep, s.notes.filter(keep)[j]);
        assert(s.notes.filter(keep).contains(s.notes.filter(keep)[j]));
    }
    assert(s.after_prune(now, screen_h).after_prune(now, screen_h) =~= s.after_prune(now, screen_h));
}

/// The expiry check only ever clears cells, never clears a value younger than
/// the timeout, and running it twice at the same time is running it once.
pub proof fn lemma_expiry_only_clears(s: RollState, now: u64)
    requires
        s.wf(),
    ensures
        s.after_expiry(now).wf(),
        forall|k: int|
            0 <= k < CC_TABLE_SIZE ==> (#[trigger] s.after_expiry(now).cc[k] is Some ==> s.after_expiry(
                now,
            ).cc[k] == s.cc[k]),
        forall|k: int|
            0 <= k < CC_TABLE_SIZE ==> (s.cc[k] matches Some((_, set_at)) && now - set_at
                <= crate::constants::CC_HUD_TIMEOUT_US ==> #[trigger] s.after_expiry(now).cc[k]
                == s.cc[k]),
        s.after_expiry(now).after_expiry(now) == s.after_expiry(now),
        s.after_expiry(now).notes == s.notes && s.after_expiry(now).active == s.active,
{
    assert(s.after_expiry(now).after_expiry(now) =~= s.after_expiry(now)) by {
        assert forall|k: int| 0 <= k < CC_TABLE_SIZE implies cc_after_expiry(
            cc_after_expiry(s.cc[k], now),
            now,
        ) == cc_after_expiry(s.cc[k], now) by {}
    }
}

/// A run of one message is that message.
pub proof fn lemma_single_message_run(s: RollState, m: MidiMessage)
    ensures
        s.after_messages(seq![m]) == s.after_message(m),
{
    assert(seq![m].drop_last() =~= Seq::<MidiMessage>::empty());
    assert(s.after_messages(seq![m].drop_last()) == s);
    assert(seq![m].last() == m);
}

/// Applying two runs of messages one after the other is applying their
/// concatenation.
pub proof fn lemma_messages_concat(s: RollState, a: Seq<MidiMessage>, b: Seq<MidiMessage>)
    ensures
        s.after_messages(a + b) == s.after_messages(a).after_messages(b),
    decreases b.len(),
{
    if b.len() == 0 {
        assert(a + b =~= a);
    } else {
        lemma_messages_concat(s, a, b.drop_last());
        assert((a + b).drop_last() =~= a + b.drop_last());
        assert((a + b).last() == b.last());
    }
}

/// Adding a note makes it the latest of its channel and key and leaves the
/// latest note of every other channel and key as it was.
proof fn lemma_latest_after_push(notes: Seq<NoteInfo>, n: NoteInfo, channel: u8, pitch: u8)
    ensures
        latest_note_of(notes.push(n), channel, pitch) == (if n.channel == channel && n.pitch == pitch {
            Some(n)
        } else {
            latest_note_of(notes, channel, pitch)
        }),
{
    assert(notes.push(n).drop_last() =~= notes);
}

/// Changing only notes of one channel and key, without moving them to another
/// channel or key, leaves the latest note of every other channel and key as it was.
proof fn lemma_latest_untouched_key(
    notes: Seq<NoteInfo>,
    changed: Seq<NoteInfo>,
    c0: u8,
    p0: u8,
    channel: u8,
    pitch: u8,
)
    requires
        changed.len() == notes.len(),
        forall|j: int|
            0 <= j < notes.len() ==> #[trigger] changed[j] == notes[j] || (notes[j].channel == c0
                && notes[j].pitch == p0 && changed[j].channel == c0 && changed[j].pitch == p0),
        channel != c0 || pitch != p0,
    ensures
        latest_note_of(changed, channel, pitch) == latest_note_of(notes, channel, pitch),
    decreases notes.len(),
{
    if notes.len() > 0 {
        let last = notes.len() - 1;
        assert(changed[last] == notes[last] || (notes[last].channel == c0 && notes[last].pitch
            == p0 && changed[last].channel == c0 && changed[last].pitch == p0));
        assert forall|j: int| 0 <= j < notes.drop_last().len() implies #[trigger] changed.drop_last()[j]
            == notes.drop_last()[j] || (notes.drop_last()[j].channel == c0
            && notes.drop_last()[j].pitch == p0 && changed.drop_last()[j].channel == c0
            && changed.drop_last()[j].pitch == p0) by {
            assert(changed[j] == notes[j] || (notes[j].channel == c0 && notes[j].pitch == p0
                && changed[j].channel == c0 && changed[j].pitch == p0));
        }
        lemma_latest_untouched_key(notes.drop_last(), changed.drop_last(), c0, p0, channel, pitch);
    }
}

/// Filtering by a predicate that keeps every held note keeps the latest note
/// of a channel and key when that note is held.
proof fn lemma_latest_held_survives_filter(
    notes: Seq<NoteInfo>,
    pred: spec_fn(NoteInfo) -> bool,
    channel: u8,
    pitch: u8,
    n: NoteInfo,
)
    requires
        latest_note_of(notes, channel, pitch) == Some(n),
        n.end_time is None,
        forall|x: NoteInfo| x.end_time is None ==> #[trigger] pred(x),
    ensures
        latest_note_of(notes.filter(pred), channel, pitch) == Some(n),
    decreases notes.len(),
{
    reveal_with_fuel(Seq::<_>::filter, 1);
    if notes.len() > 0 {
        let sub = notes.drop_last().filter(pred);
        let last = notes.last();
        if last.channel == channel && last.pitch == pitch {
            assert(pred(last));
            lemma_latest_after_push(sub, last, channel, pitch);
        } else {
            lemma_latest_held_survives_filter(notes.drop_last(), pred, channel, pitch, n);
            if pred(last) {
                lemma_latest_after_push(sub, last, channel, pitch);
            }
        }
    }
}

/// One message keeps every lit key's note held on the roll.
pub proof fn lemma_message_keeps_lit_keys_held(s: RollState, m: MidiMessage)
    requires
        s.wf(),
        m.fits_tables(),
        s.lit_keys_held(),
    ensures
        s.after_message(m).wf(),
        s.after_message(m).lit_keys_held(),
{
    let t = s.after_message(m);
    match m {
        MidiMessage::NoteOn { channel, pitch, velocity, timestamp } => {
            let n = NoteInfo { channel, pitch, velocity, start_time: timestamp, end_time: None };
            assert forall|c: u8, p: u8|
                c < NUM_CHANNELS && p < NUM_PITCHES && #[trigger] t.active[slot(
                    c as int,
                    p as int,
                )] > 0 implies (latest_note_of(t.notes, c, p) matches Some(x) && x.end_time is None
                && x.velocity == t.active[slot(c as int, p as int)]) by {
                lemma_latest_after_push(s.notes, n, c, p);
                if c != channel || p != pitch {
                    assert(slot(c as int, p as int) != slot(channel as int, pitch as int));
                    assert(s.active[slot(c as int, p as int)] > 0);
                }
            }
        },
        MidiMessage::NoteOff { channel, pitch, timestamp } => {
            lemma_last_open_note(s.notes, channel, pitch);
            assert forall|j: int|
                0 <= j < s.notes.len() implies #[trigger] t.notes[j] == s.notes[j] || (
            s.notes[j].channel == channel && s.notes[j].pitch == pitch && t.notes[j].channel
                == channel && t.notes[j].pitch == pitch) by {}
            assert forall|c: u8, p: u8|
                c < NUM_CHANNELS && p < NUM_PITCHES && #[trigger] t.active[slot(
                    c as int,
                    p as int,
                )] > 0 implies (latest_note_of(t.notes, c, p) matches Some(x) && x.end_time is None
                && x.velocity == t.active[slot(c as int, p as int)]) by {
                if c == channel && p == pitch {
                    assert(t.active[slot(c as int, p as int)] == 0);
                } else {
                    assert(slot(c as int, p as int) != slot(channel as int, pitch as int));
                    assert(s.active[slot(c as int, p as int)] > 0);
                    lemma_latest_untouched_key(s.notes, t.notes, channel, pitch, c, p);
                }
            }
        },
        MidiMessage::ControlChange { .. } => {
            assert forall|c: u8, p: u8|
                c < NUM_CHANNELS && p < NUM_PITCHES && #[trigger] t.active[slot(
                    c as int,
                    p as int,
                )] > 0 implies (latest_note_of(t.notes, c, p) matches Some(x) && x.end_time is None
                && x.velocity == t.active[slot(c as int, p as int)]) by {
                assert(s.active[slot(c as int, p as int)] > 0);
            }
        },
    }
}

/// A run of messages keeps every lit key's note held on the roll.
pub proof fn lemma_messages_keep_lit_keys_held(s: RollState, ms: Seq<MidiMessage>)
    requires
        s.wf(),
        s.lit_keys_held(),
        forall|j: int| 0 <= j < ms.len() ==> (#[trigger] ms[j]).fits_tables(),
    ensures
        s.after_messages(ms).wf(),
        s.after_messages(ms).lit_keys_held(),
    decreases ms.len(),
{
    if ms.len() > 0 {
        assert forall|j: int| 0 <= j < ms.drop_last().len() implies (
        #[trigger] ms.drop_last()[j]).fits_tables() by {
            assert(ms[j].fits_tables());
        }
        lemma_messages_keep_lit_keys_held(s, ms.drop_last());
        assert(ms[ms.len() - 1].fits_tables());
        lemma_message_keeps_lit_keys_held(s.after_messages(ms.drop_last()), ms.last());
    }
}

/// A lit key always has its note on the roll: if before a frame the most
/// recent note of every lit key is held with the key's velocity, the same
/// holds after the frame, whatever keys were pressed, whatever in-range
/// messages arrived, and whatever the time and screen height.
pub proof fn lemma_frame_keeps_lit_keys_held(
    s: RollState,
    keys: KeyPresses,
    ms: Seq<MidiMessage>,
    now: u64,
    screen_h: u32,
)
    requires
        s.wf(),
        s.lit_keys_held(),
        forall|j: int| 0 <= j < ms.len() ==> (#[trigger] ms[j]).fits_tables(),
    ensures
        s.after_frame(keys, ms, now, screen_h).lit_keys_held(),
{
    let toggled = s.after_toggles(keys);
    assert(toggled.notes == s.notes && toggled.active == s.active);
    let reset = if keys.reset_notes {
        toggled.after_reset(now)
    } else {
        toggled
    };
    assert(reset.wf());
    assert(reset.lit_keys_held()) by {
        if keys.reset_notes {
            assert forall|c: u8, p: u8|
                c < NUM_CHANNELS && p < NUM_PITCHES && #[trigger] reset.active[slot(
                    c as int,
                    p as int,
                )] > 0 implies (latest_note_of(reset.notes, c, p) matches Some(x) && x.end_time
                is None && x.velocity == reset.active[slot(c as int, p as int)]) by {
                assert(reset.active[slot(c as int, p as int)] == 0);
            }
        }
    }
    lemma_messages_keep_lit_keys_held(reset, ms);
    let moved = reset.after_messages(ms);
    let expired = moved.after_expiry(now);
    assert(expired.notes == moved.notes && expired.active == moved.active);
    let pruned = expired.after_prune(now, screen_h);
    let keep = |n: NoteInfo| note_on_screen(n, now, screen_h);
    assert(pruned.notes == expired.notes.filter(keep));
    assert forall|c: u8, p: u8|
        c < NUM_CHANNELS && p < NUM_PITCHES && #[trigger] pruned.active[slot(c as int, p as int)]
            > 0 implies (latest_note_of(pruned.notes, c, p) matches Some(x) && x.end_time is None
        && x.velocity == pruned.active[slot(c as int, p as int)]) by {
        assert(moved.active[slot(c as int, p as int)] > 0);
        let n = latest_note_of(moved.notes, c, p)->Some_0;
        lemma_latest_held_survives_filter(moved.notes, keep, c, p, n);
    }
}

/// Each display key flips its own switch and no other: D the drum highway,
/// C the controller monitor, L the legend, V the velocity numbers and ? the
/// hints.
pub proof fn lemma_each_key_flips_its_own_switch(s: RollState, keys: KeyPresses)
    ensures
        (s.after_toggles(keys).show_drums != s.show_drums) <==> keys.toggle_drums,
        (s.after_toggles(keys).show_cc != s.show_cc) <==> keys.toggle_cc,
        (s.after_toggles(keys).show_legend != s.show_legend) <==> keys.toggle_legend,
        (s.after_toggles(keys).show_velocity != s.show_velocity) <==> keys.toggle_velocity,
        (s.after_toggles(keys).show_hints != s.show_hints) <==> keys.toggle_hints,
{
}

/// The monitor line of an occupied controller cell.
spec fn line_of_cell(cc: Seq<Option<(u8, u64)>>, j: int) -> (u8, u8, u8) {
    ((j / 128) as u8, (j % 128) as u8, cc[j]->Some_0.0)
}

/// The line is the line of an occupied cell among the first `k`.
spec fn line_from_cell(cc: Seq<Option<(u8, u64)>>, k: int, line: (u8, u8, u8)) -> bool {
    exists|j: int| 0 <= j < k && cc[j] is Some && line == #[trigger] line_of_cell(cc, j)
}

/// The first `k` cells of the controller table give one line per occupied
/// cell, carrying the cell's channel, controller and value, in table order.
proof fn lemma_cc_lines_prefix(cc: Seq<Option<(u8, u64)>>, k: int)
    requires
        0 <= k <= CC_TABLE_SIZE,
    ensures
        forall|i: int|
            0 <= i < cc_lines(cc, k).len() ==> line_from_cell(cc, k, #[trigger] cc_lines(cc, k)[i]),
        forall|j: int|
            0 <= j < k && cc[j] is Some ==> cc_lines(cc, k).contains(#[trigger] line_of_cell(cc, j)),
        forall|i: int|
            0 <= i < cc_lines(cc, k).len() ==> cc_slot(
                (#[trigger] cc_lines(cc, k)[i]).0 as int,
                cc_lines(cc, k)[i].1 as int,
            ) < k,
        forall|i1: int, i2: int|
            0 <= i1 < i2 < cc_lines(cc, k).len() ==> cc_slot(
                (#[trigger] cc_lines(cc, k)[i1]).0 as int,
                cc_lines(cc, k)[i1].1 as int,
            ) < cc_slot((#[trigger] cc_lines(cc, k)[i2]).0 as int, cc_lines(cc, k)[i2].1 as int),
    decreases k,
{
    if k > 0 {
        lemma_cc_lines_prefix(cc, k - 1);
        let before = cc_lines(cc, k - 1);
        let after = cc_lines(cc, k);
        let j0 = k - 1;
        assert(cc_slot((j0 / 128) as u8 as int, (j0 % 128) as u8 as int) == j0);
        assert forall|i: int| 0 <= i < before.len() implies #[trigger] after[i] == before[i] by {}
        assert forall|i: int| 0 <= i < after.len() implies line_from_cell(cc, k, #[trigger] after[i]) by {
            if i < before.len() {
                assert(line_from_cell(cc, k - 1, before[i]));
                let j = choose|j: int|
                    0 <= j < k - 1 && cc[j] is Some && before[i] == #[trigger] line_of_cell(cc, j);
                assert(after[i] == line_of_cell(cc, j));
            } else {
                assert(after[i] == line_of_cell(cc, j0));
            }
        }
        assert forall|j: int| 0 <= j < k && cc[j] is Some implies after.contains(
            #[trigger] line_of_cell(cc, j),
        ) by {
            if j < k - 1 {
                assert(before.contains(line_of_cell(cc, j)));
                let i = choose|i: int| 0 <= i < before.len() && before[i] == line_of_cell(cc, j);
                assert(after[i] == before[i]);
            } else {
                assert(after[before.len() as int] == line_of_cell(cc, j));
            }
        }
        assert forall|i: int| 0 <= i < after.len() implies cc_slot(
            (#[trigger] after[i]).0 as int,
            after[i].1 as int,
        ) < k by {
            if i < before.len() {
                assert(after[i] == before[i]);
            }
        }
        assert forall|i1: int, i2: int| 0 <= i1 < i2 < after.len() implies cc_slot(
            (#[trigger] after[i1]).0 as int,
            after[i1].1 as int,
        ) < cc_slot((#[trigger] after[i2]).0 as int, after[i2].1 as int) by {
            assert(after[i1] == before[i1]);
            if i2 < before.len() {
                assert(after[i2] == before[i2]);
            }
        }
    }
}

/// The controller monitor shows exactly the occupied cells of the controller
/// table, one line each and in table order: every value on the table, zero
/// included, gives the line (channel, controller, value), and every line comes
/// from such a cell.
pub proof fn lemma_cc_monitor_lines(cc: Seq<Option<(u8, u64)>>)
    requires
        cc.len() == CC_TABLE_SIZE,
    ensures
        forall|c: u8, ctrl: u8|
            c < NUM_CHANNELS && ctrl < NUM_CONTROLLERS && (#[trigger] cc[cc_slot(
                c as int,
                ctrl as int,
            )]) is Some ==> cc_lines(cc, CC_TABLE_SIZE as int).contains(
                (c, ctrl, cc[cc_slot(c as int, ctrl as int)]->Some_0.0),
            ),
        forall|i: int|
            0 <= i < cc_lines(cc, CC_TABLE_SIZE as int).len() ==> {
                let line = #[trigger] cc_lines(cc, CC_TABLE_SIZE as int)[i];
                &&& line.0 < NUM_CHANNELS
                &&& line.1 < NUM_CONTROLLERS
                &&& cc[cc_slot(line.0 as int, line.1 as int)] matches Some((v, _)) && v == line.2
            },
        forall|i1: int, i2: int|
            0 <= i1 < i2 < cc_lines(cc, CC_TABLE_SIZE as int).len() ==> cc_slot(
                (#[trigger] cc_lines(cc, CC_TABLE_SIZE as int)[i1]).0 as int,
                cc_lines(cc, CC_TABLE_SIZE as int)[i1].1 as int,
            ) < cc_slot(
                (#[trigger] cc_lines(cc, CC_TABLE_SIZE as int)[i2]).0 as int,
                cc_lines(cc, CC_TABLE_SIZE as int)[i2].1 as int,
            ),
{
    let lines = cc_lines(cc, CC_TABLE_SIZE as int);
    lemma_cc_lines_prefix(cc, CC_TABLE_SIZE as int);
    assert forall|c: u8, ctrl: u8|
        c < NUM_CHANNELS && ctrl < NUM_CONTROLLERS && (#[trigger] cc[cc_slot(
            c as int,
            ctrl as int,
        )]) is Some implies lines.contains((c, ctrl, cc[cc_slot(c as int, ctrl as int)]->Some_0.0)) by {
        let j = cc_slot(c as int, ctrl as int);
        assert((j / 128) as u8 == c && (j % 128) as u8 == ctrl);
        assert(lines.contains(line_of_cell(cc, j)));
    }
    assert forall|i: int| 0 <= i < lines.len() implies {
        let line = #[trigger] lines[i];
        &&& line.0 < NUM_CHANNELS
        &&& line.1 < NUM_CONTROLLERS
        &&& cc[cc_slot(line.0 as int, line.1 as int)] matches Some((v, _)) && v == line.2
    } by {
        assert(line_from_cell(cc, CC_TABLE_SIZE as int, lines[i]));
        let j = choose|j: int|
            0 <= j < CC_TABLE_SIZE && cc[j] is Some && lines[i] == #[trigger] line_of_cell(cc, j);
        assert(cc_slot((j / 128) as u8 as int, (j % 128) as u8 as int) == j);
    }
}

/// A controller value stays on the monitor for three seconds: at `now` the
/// expiry check clears exactly the values set more than 3 000 000 microseconds
/// before `now`, and leaves every other cell as it was.
pub proof fn lemma_expiry_after_three_seconds(s: RollState, now: u64, k: int)
    requires
        s.wf(),
        0 <= k < CC_TABLE_SIZE,
    ensures
        s.after_expiry(now).cc[k] == (if s.cc[k] is Some && now - s.cc[k]->Some_0.1 > 3_000_000 {
            None
        } else {
            s.cc[k]
        }),
{
}

/// A released note scrolls at 150 pixels per second: at `now` it stays on the
/// roll exactly while the distance scrolled since its release is below the
/// screen height; held notes always stay.
pub proof fn lemma_released_note_scrolls_off(s: RollState, now: u64, screen_h: u32, j: int)
    requires
        0 <= j < s.notes.len(),
    ensures
        s.notes[j].end_time is None ==> s.after_prune(now, screen_h).notes.contains(s.notes[j]),
        s.notes[j].end_time matches Some(end) && (now - end) * 150 < screen_h * 1_000_000
            ==> s.after_prune(now, screen_h).notes.contains(s.notes[j]),
        forall|i: int|
            0 <= i < s.after_prune(now, screen_h).notes.len() ==> ((
            #[trigger] s.after_prune(now, screen_h).notes[i]).end_time matches Some(end) ==> (now
                - end) * 150 < screen_h * 1_000_000),
{
    broadcast use vstd::seq_lib::group_filter_ensures;

    let keep = |n: NoteInfo| note_on_screen(n, now, screen_h);
    if keep(s.notes[j]) {
        s.notes.lemma_filter_contains(keep, j);
    }
    assert forall|i: int| 0 <= i < s.after_prune(now, screen_h).notes.len() implies ((
    #[trigger] s.after_prune(now, screen_h).notes[i]).end_time matches Some(end) ==> (now - end)
        * 150 < screen_h * 1_000_000) by {
        s.notes.lemma_filter_pred(keep, i);
    }
}

} // verus!
