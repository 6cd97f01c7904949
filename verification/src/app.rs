use vstd::prelude::*;

use crate::constants::{
    CC_HUD_TIMEOUT_US, DRUM_CHANNEL, MICROS_PER_SEC, NOTE_SPEED_PX_PER_SEC, NUM_CHANNELS,
    NUM_CONTROLLERS, NUM_DRUM_LANES, NUM_PITCHES, KEY_TABLE_SIZE, CC_TABLE_SIZE,
};
use crate::helpers::{drum_lane_of, get_drum_lane};
use crate::laws::lemma_frame_keeps_lit_keys_held;
use crate::types::{MidiMessage, NoteInfo};

verus! {

/// Index of a (channel, key) cell in the flat table of held keys.
pub open spec fn slot(channel: int, key: int) -> int {
    channel * NUM_PITCHES + key
}

/// Index of a (channel, controller) cell in the flat table of controller values.
pub open spec fn cc_slot(channel: int, controller: int) -> int {
    channel * NUM_CONTROLLERS + controller
}

/// The keyboard keys pressed during one frame.
#[derive(Clone, Copy, Debug)]
pub struct KeyPresses {
    /// Show or hide the drum highway.
    pub toggle_drums: bool,
    /// Show or hide the controller monitor.
    pub toggle_cc: bool,
    /// Show or hide the channel legend.
    pub toggle_legend: bool,
    /// Show or hide velocity numbers on the notes.
    pub toggle_velocity: bool,
    /// Show or hide the key hints.
    pub toggle_hints: bool,
    /// Release every held note and key.
    pub reset_notes: bool,
}

/// The abstract state of the piano roll.
#[verifier::ext_equal]
pub struct RollState {
    /// Notes on the roll, oldest first.
    pub notes: Seq<NoteInfo>,
    /// Velocity of each held key by `slot(channel, key)`; zero when not held.
    pub active: Seq<u8>,
    /// Last value and time of each controller by `cc_slot(channel, controller)`,
    /// while it is shown.
    pub cc: Seq<Option<(u8, u64)>>,
    pub show_drums: bool,
    pub show_cc: bool,
    pub show_hints: bool,
    pub show_legend: bool,
    pub show_velocity: bool,
}

/// The index of the most recent note that is still held on this channel and key.
pub open spec fn last_open_note(notes: Seq<NoteInfo>, channel: u8, pitch: u8) -> Option<int>
    decreases notes.len(),
{
    if notes.len() == 0 {
        None
    } else if notes.last().is_open_for(channel, pitch) {
        Some(notes.len() - 1)
    } else {
        last_open_note(notes.drop_last(), channel, pitch)
    }
}

/// The note, released at `now` if it was still held.
pub open spec fn closed_at(n: NoteInfo, now: u64) -> NoteInfo {
    if n.end_time is None {
        NoteInfo { end_time: Some(now), ..n }
    } else {
        n
    }
}

/// A note stays on the roll while it is held, or while the distance it has
/// scrolled since its release is less than the screen height.
pub open spec fn note_on_screen(n: NoteInfo, now: u64, screen_h: u32) -> bool {
    match n.end_time {
        None => true,
        Some(end) => (now - end) * NOTE_SPEED_PX_PER_SEC < screen_h * MICROS_PER_SEC,
    }
}

/// A controller value set at `set_at` is no longer shown at `now`.
pub open spec fn cc_expired(set_at: u64, now: u64) -> bool {
    now - set_at > CC_HUD_TIMEOUT_US
}

/// The controller cell after the expiry check at `now`.
pub open spec fn cc_after_expiry(e: Option<(u8, u64)>, now: u64) -> Option<(u8, u64)> {
    match e {
        Some((_, set_at)) => if cc_expired(set_at, now) {
            None
        } else {
            e
        },
        None => None,
    }
}

/// The controller monitor's lines for the first `k` cells of the controller
/// table: (channel, controller, value) of each value shown, in table order.
pub open spec fn cc_lines(cc: Seq<Option<(u8, u64)>>, k: int) -> Seq<(u8, u8, u8)>
    decreases k,
{
    if k <= 0 {
        Seq::empty()
    } else {
        let before = cc_lines(cc, k - 1);
        match cc[k - 1] {
            Some((value, _)) => before.push(
                (
                    ((k - 1) / NUM_CONTROLLERS as int) as u8,
                    ((k - 1) % NUM_CONTROLLERS as int) as u8,
                    value,
                ),
            ),
            None => before,
        }
    }
}

/// The most recent note of this channel and key on the roll, held or not.
pub open spec fn latest_note_of(notes: Seq<NoteInfo>, channel: u8, pitch: u8) -> Option<NoteInfo>
    decreases notes.len(),
{
    if notes.len() == 0 {
        None
    } else if notes.last().channel == channel && notes.last().pitch == pitch {
        Some(notes.last())
    } else {
        latest_note_of(notes.drop_last(), channel, pitch)
    }
}

impl RollState {
    /// Every lit key has its note on the roll: the most recent note of that
    /// channel and key is still held, with the key's velocity.
    pub open spec fn lit_keys_held(self) -> bool {
        forall|c: u8, p: u8|
            #![trigger self.active[slot(c as int, p as int)]]
            c < NUM_CHANNELS && p < NUM_PITCHES && self.active[slot(c as int, p as int)] > 0
                ==> (latest_note_of(self.notes, c, p) matches Some(n) && n.end_time is None
                && n.velocity == self.active[slot(c as int, p as int)])
    }

    /// The tables have one cell per channel and key or controller.
    pub open spec fn wf(self) -> bool {
        &&& self.active.len() == KEY_TABLE_SIZE
        &&& self.cc.len() == CC_TABLE_SIZE
    }

    pub open spec fn with_notes(self, notes: Seq<NoteInfo>) -> RollState {
        RollState { notes, ..self }
    }

    pub open spec fn with_active(self, active: Seq<u8>) -> RollState {
        RollState { active, ..self }
    }

    pub open spec fn with_cc(self, cc: Seq<Option<(u8, u64)>>) -> RollState {
        RollState { cc, ..self }
    }

    /// The notes after a note-off on this channel and key at `timestamp`: the
    /// most recent note still held there is released, others are unchanged.
    pub open spec fn notes_after_release(self, channel: u8, pitch: u8, timestamp: u64) -> Seq<
        NoteInfo,
    > {
        match last_open_note(self.notes, channel, pitch) {
            Some(i) => self.notes.update(i, NoteInfo { end_time: Some(timestamp), ..self.notes[i] }),
            None => self.notes,
        }
    }

    /// The state after one MIDI message.
    pub open spec fn after_message(self, m: MidiMessage) -> RollState {
        match m {
            MidiMessage::NoteOn { channel, pitch, velocity, timestamp } => self.with_notes(
                self.notes.push(
                    NoteInfo { channel, pitch, velocity, start_time: timestamp, end_time: None },
                ),
            ).with_active(self.active.update(slot(channel as int, pitch as int), velocity)),
            MidiMessage::NoteOff { channel, pitch, timestamp } => self.with_notes(
                self.notes_after_release(channel, pitch, timestamp),
            ).with_active(self.active.update(slot(channel as int, pitch as int), 0)),
            MidiMessage::ControlChange { channel, controller, value, timestamp } => self.with_cc(
                self.cc.update(cc_slot(channel as int, controller as int), Some((value, timestamp))),
            ),
        }
    }

    /// The state after the messages, in order.
    pub open spec fn after_messages(self, ms: Seq<MidiMessage>) -> RollState
        decreases ms.len(),
    {
        if ms.len() == 0 {
            self
        } else {
            self.after_messages(ms.drop_last()).after_message(ms.last())
        }
    }

    /// The display switches after the toggles of one frame.
    pub open spec fn after_toggles(self, keys: KeyPresses) -> RollState {
        RollState {
            show_drums: self.show_drums != keys.toggle_drums,
            show_cc: self.show_cc != keys.toggle_cc,
            show_legend: self.show_legend != keys.toggle_legend,
            show_velocity: self.show_velocity != keys.toggle_velocity,
            show_hints: self.show_hints != keys.toggle_hints,
            ..self
        }
    }

    /// The state after a reset at `now`: no key is held, and every held note
    /// is released at `now`.
    pub open spec fn after_reset(self, now: u64) -> RollState {
        self.with_active(Seq::new(self.active.len(), |i: int| 0u8)).with_notes(
            self.notes.map_values(|n: NoteInfo| closed_at(n, now)),
        )
    }

    /// The state after dropping the controller values that have timed out at `now`.
    pub open spec fn after_expiry(self, now: u64) -> RollState {
        self.with_cc(self.cc.map_values(|e: Option<(u8, u64)>| cc_after_expiry(e, now)))
    }

    /// The state after dropping the notes that have scrolled off the screen.
    pub open spec fn after_prune(self, now: u64, screen_h: u32) -> RollState {
        self.with_notes(self.notes.filter(|n: NoteInfo| note_on_screen(n, now, screen_h)))
    }

    /// The state after one frame: toggles, the optional reset, the frame's
    /// messages in order, controller expiry and note pruning.
    pub open spec fn after_frame(
        self,
        keys: KeyPresses,
        ms: Seq<MidiMessage>,
        now: u64,
        screen_h: u32,
    ) -> RollState {
        let toggled = self.after_toggles(keys);
        let reset = if keys.reset_notes {
            toggled.after_reset(now)
        } else {
            toggled
        };
        reset.after_messages(ms).after_expiry(now).after_prune(now, screen_h)
    }
}

/// The state of a live piano roll: the notes on the roll, which keys are held,
/// the recent controller values, and the display switches.
pub struct PianoRollApp {
    notes: Vec<NoteInfo>,
    active_pitches: Vec<u8>,
    cc_values: Vec<Option<(u8, u64)>>,
    show_drums: bool,
    show_cc: bool,
    show_hints: bool,
    show_legend: bool,
    show_velocity: bool,
}

impl View for PianoRollApp {
    type V = RollState;

    closed spec fn view(&self) -> RollState {
        RollState {
            notes: self.notes@,
            active: self.active_pitches@,
            cc: self.cc_values@,
            show_drums: self.show_drums,
            show_cc: self.show_cc,
            show_hints: self.show_hints,
            show_legend: self.show_legend,
            show_velocity: self.show_velocity,
        }
    }
}

impl PianoRollApp {
    /// The tables have one cell per channel and key or controller.
    pub open spec fn wf(&self) -> bool {
        self@.wf()
    }

    /// An empty roll: no notes, no held keys, no controller values; drums and
    /// the controller monitor shown, hints, legend and velocities hidden.
    pub fn new() -> (r: Self)
        ensures
            r.wf(),
            r@.notes.len() == 0,
            forall|k: int| 0 <= k < KEY_TABLE_SIZE ==> #[trigger] r@.active[k] == 0,
            forall|k: int| 0 <= k < CC_TABLE_SIZE ==> #[trigger] r@.cc[k] is None,
            r@.show_drums && r@.show_cc,
            !r@.show_hints && !r@.show_legend && !r@.show_velocity,
            r@.lit_keys_held(),
    {
        let mut active_pitches: Vec<u8> = Vec::new();
        let mut k: usize = 0;
        while k < KEY_TABLE_SIZE
            invariant
                k <= KEY_TABLE_SIZE,
                active_pitches@.len() == k,
                forall|j: int| 0 <= j < k ==> #[trigger] active_pitches@[j] == 0,
            decreases KEY_TABLE_SIZE - k,
        {
            active_pitches.push(0);
            k = k + 1;
        }
        let mut cc_values: Vec<Option<(u8, u64)>> = Vec::new();
        let mut k: usize = 0;
        while k < CC_TABLE_SIZE
            invariant
                k <= CC_TABLE_SIZE,
                cc_values@.len() == k,
                forall|j: int| 0 <= j < k ==> #[trigger] cc_values@[j] is None,
            decreases CC_TABLE_SIZE - k,
        {
            cc_values.push(None);
            k = k + 1;
        }
        PianoRollApp {
            notes: Vec::new(),
            active_pitches,
            cc_values,
            show_drums: true,
            show_cc: true,
            show_hints: false,
            show_legend: false,
            show_velocity: false,
        }
    }
    /// Releases, at `timestamp`, the most recent note still held on this
    /// channel and key, if there is one.
    fn release_last_open(&mut self, channel: u8, pitch: u8, timestamp: u64)
        ensures
            final(self)@ == old(self)@.with_notes(old(self)@.notes_after_release(channel, pitch, timestamp)),
    {
        let ghost notes0 = self.notes@;
        let mut i: usize = self.notes.len();
        assert(notes0.take(i as int) =~= notes0);
        while i > 0
            invariant
                self.notes@ == notes0,
                self@ == old(self)@,
                i <= notes0.len(),
                last_open_note(notes0.take(i as int), channel, pitch) == last_open_note(notes0, channel, pitch),
            decreases i,
        {
            proof {
                assert(notes0.take(i as int).drop_last() =~= notes0.take(i - 1));
            }
            let n = self.notes[i - 1];
            if n.channel == channel && n.pitch == pitch && n.end_time.is_none() {
                self.notes[i - 1] = NoteInfo { end_time: Some(timestamp), ..n };
                return;
            }
            i = i - 1;
        }
        assert(notes0.take(0) =~= Seq::<NoteInfo>::empty());
    }

    /// Applies one MIDI message: a note-on adds a held note and marks its key
    /// with the velocity; a note-off clears the key and releases the most
    /// recent held note of that key; a control change records the value and
    /// its time.
    pub fn handle_message(&mut self, msg: MidiMessage)
        requires
            old(self).wf(),
            msg.fits_tables(),
        ensures
            final(self).wf(),
            final(self)@ == old(self)@.after_message(msg),
    {
        match msg {
            MidiMessage::NoteOn { channel, pitch, velocity, timestamp } => {
                self.notes.push(
                    NoteInfo { channel, pitch, velocity, start_time: timestamp, end_time: None },
                );
                let k = (channel as usize) * NUM_PITCHES + (pitch as usize);
                self.active_pitches[k] = velocity;
            },
            MidiMessage::NoteOff { channel, pitch, timestamp } => {
                let k = (channel as usize) * NUM_PITCHES + (pitch as usize);
                self.active_pitches[k] = 0;
                self.release_last_open(channel, pitch, timestamp);
            },
            MidiMessage::ControlChange { channel, controller, value, timestamp } => {
                let k = (channel as usize) * NUM_CONTROLLERS + (controller as usize);
                self.cc_values[k] = Some((value, timestamp));
            },
        }
        assert(self@ =~= old(self)@.after_message(msg));
    }
    /// Flips each display switch whose key was pressed.
    pub fn apply_toggles(&mut self, keys: KeyPresses)
        ensures
            final(self)@ == old(self)@.after_toggles(keys),
    {
        if keys.toggle_drums {
            self.show_drums = !self.show_drums;
        }
        if keys.toggle_cc {
            self.show_cc = !self.show_cc;
        }
        if keys.toggle_legend {
            self.show_legend = !self.show_legend;
        }
        if keys.toggle_velocity {
            self.show_velocity = !self.show_velocity;
        }
        if keys.toggle_hints {
            self.show_hints = !self.show_hints;
        }
        assert(self@ =~= old(self)@.after_toggles(keys));
    }

    /// Clears every held key and releases every held note at `now`.
    pub fn reset_notes(&mut self, now: u64)
        requires
            old(self).wf(),
        ensures
            final(self).wf(),
            final(self)@ == old(self)@.after_reset(now),
    {
        let mut k: usize = 0;
        while k < KEY_TABLE_SIZE
            invariant
                k <= KEY_TABLE_SIZE,
                self@ == old(self)@.with_active(self@.active),
                self@.active.len() == KEY_TABLE_SIZE,
                forall|j: int| 0 <= j < k ==> #[trigger] self@.active[j] == 0,
            decreases KEY_TABLE_SIZE - k,
        {
            self.active_pitches[k] = 0;
            k = k + 1;
        }
        let ghost mid = self@;
        let n = self.notes.len();
        let mut i: usize = 0;
        while i < n
            invariant
                n == mid.notes.len(),
                i <= n,
                self@ == mid.with_notes(self@.notes),
                self@.notes.len() == n,
                forall|j: int| 0 <= j < i ==> #[trigger] self@.notes[j] == closed_at(mid.notes[j], now),
                forall|j: int| i <= j < n ==> #[trigger] self@.notes[j] == mid.notes[j],
            decreases n - i,
        {
            let note = self.notes[i];
            if note.end_time.is_none() {
                self.notes[i] = NoteInfo { end_time: Some(now), ..note };
            }
            i = i + 1;
        }
        assert(self@ =~= old(self)@.after_reset(now));
    }

    /// Drops every controller value that has been shown longer than the
    /// timeout at `now`.
    pub fn expire_cc(&mut self, now: u64)
        requires
            old(self).wf(),
        ensures
            final(self).wf(),
            final(self)@ == old(self)@.after_expiry(now),
    {
        let ghost cc0 = self@.cc;
        let mut k: usize = 0;
        while k < CC_TABLE_SIZE
            invariant
                k <= CC_TABLE_SIZE,
                cc0 == old(self)@.cc,
                cc0.len() == CC_TABLE_SIZE,
                self@ == old(self)@.with_cc(self@.cc),
                self@.cc.len() == CC_TABLE_SIZE,
                forall|j: int| 0 <= j < k ==> #[trigger] self@.cc[j] == cc_after_expiry(cc0[j], now),
                forall|j: int| k <= j < CC_TABLE_SIZE ==> #[trigger] self@.cc[j] == cc0[j],
            decreases CC_TABLE_SIZE - k,
        {
            if let Some((_, set_at)) = self.cc_values[k] {
                if now > set_at && now - set_at > CC_HUD_TIMEOUT_US {
                    self.cc_values[k] = None;
                }
            }
            k = k + 1;
        }
        assert(self@ =~= old(self)@.after_expiry(now));
    }

    /// Drops the released notes that have scrolled off a screen `screen_h`
    /// pixels high at `now`, keeping the order of the others.
    pub fn prune_notes(&mut self, now: u64, screen_h: u32)
        ensures
            final(self)@ == old(self)@.after_prune(now, screen_h),
    {
        let ghost notes0 = self@.notes;
        let ghost keep = |n: NoteInfo| note_on_screen(n, now, screen_h);
        let n = self.notes.len();
        let mut kept: Vec<NoteInfo> = Vec::new();
        let mut i: usize = 0;
        while i < n
            invariant
                n == notes0.len(),
                i <= n,
                self@ == old(self)@,
                notes0 == old(self)@.notes,
                keep == (|n: NoteInfo| note_on_screen(n, now, screen_h)),
                kept@ == notes0.take(i as int).filter(keep),
            decreases n - i,
        {
            proof {
                reveal_with_fuel(Seq::<_>::filter, 1);
                assert(notes0.take(i + 1).drop_last() =~= notes0.take(i as int));
            }
            let note = self.notes[i];
            let on_screen = match note.end_time {
                None => true,
                Some(end) => {
                    if end > now {
                        assert((now - end) * NOTE_SPEED_PX_PER_SEC < screen_h * MICROS_PER_SEC)
                            by (nonlinear_arith)
                            requires
                                end > now,
                                NOTE_SPEED_PX_PER_SEC == 150,
                                MICROS_PER_SEC == 1_000_000,
                        ;
                        true
                    } else {
                        let elapsed = (now - end) as u128;
                        let speed = NOTE_SPEED_PX_PER_SEC as u128;
                        let height = screen_h as u128;
                        let per_sec = MICROS_PER_SEC as u128;
                        assert(elapsed * speed <= 0xffff_ffff_ffff_ffff * 150 && height * per_sec
                            <= 0xffff_ffff * 1_000_000) by (nonlinear_arith)
                            requires
                                elapsed <= 0xffff_ffff_ffff_ffff,
                                speed == 150,
                                height <= 0xffff_ffff,
                                per_sec == 1_000_000,
                        ;
                        assert(elapsed * speed == (now - end) * NOTE_SPEED_PX_PER_SEC && height
                            * per_sec == screen_h * MICROS_PER_SEC);
                        elapsed * speed < height * per_sec
                    }
                },
            };
            assert(on_screen == keep(note));
            assert(notes0.take(i + 1).last() == note);
            if on_screen {
                kept.push(note);
            }
            i = i + 1;
        }
        assert(notes0.take(n as int) =~= notes0);
        self.notes = kept;
        assert(self@ =~= old(self)@.after_prune(now, screen_h));
    }

    /// Applies the messages in order.
    pub fn handle_messages(&mut self, messages: &[MidiMessage])
        requires
            old(self).wf(),
            forall|j: int| 0 <= j < messages@.len() ==> (#[trigger] messages@[j]).fits_tables(),
        ensures
            final(self).wf(),
            final(self)@ == old(self)@.after_messages(messages@),
    {
        let n = messages.len();
        let mut i: usize = 0;
        while i < n
            invariant
                n == messages@.len(),
                i <= n,
                self.wf(),
                forall|j: int| 0 <= j < messages@.len() ==> (#[trigger] messages@[j]).fits_tables(),
                self@ == old(self)@.after_messages(messages@.take(i as int)),
            decreases n - i,
        {
            proof {
                assert(messages@.take(i + 1).drop_last() =~= messages@.take(i as int));
            }
            self.handle_message(messages[i]);
            i = i + 1;
        }
        assert(messages@.take(n as int) =~= messages@);
    }

    /// One frame of the roll: the pressed keys flip their display switches
    /// and may reset the notes at `now`, the frame's messages are applied in
    /// order, timed-out controller values are dropped, and released notes
    /// that have scrolled off a screen `screen_h` pixels high are removed.
    /// A lit key keeps its held note on the roll across the frame.
    pub fn update(&mut self, keys: KeyPresses, messages: &[MidiMessage], now: u64, screen_h: u32)
        requires
            old(self).wf(),
            forall|j: int| 0 <= j < messages@.len() ==> (#[trigger] messages@[j]).fits_tables(),
        ensures
            final(self).wf(),
            final(self)@ == old(self)@.after_frame(keys, messages@, now, screen_h),
            old(self)@.lit_keys_held() ==> final(self)@.lit_keys_held(),
    {
        proof {
            if old(self)@.lit_keys_held() {
                lemma_frame_keeps_lit_keys_held(old(self)@, keys, messages@, now, screen_h);
            }
        }
        self.apply_toggles(keys);
        if keys.reset_notes {
            self.reset_notes(now);
        }
        self.handle_messages(messages);
        self.expire_cc(now);
        self.prune_notes(now, screen_h);
    }
    /// The first non-percussion channel, counted from channel 1, on which the
    /// key is held, with its velocity.
    pub fn get_active_key(&self, pitch: u8) -> (r: Option<(u8, u8)>)
        requires
            self.wf(),
            pitch < NUM_PITCHES,
        ensures
            r matches Some((c, v)) ==> {
                &&& c < NUM_CHANNELS
                &&& c != DRUM_CHANNEL
                &&& v > 0
                &&& v == self@.active[slot(c as int, pitch as int)]
                &&& forall|c2: int|
                    0 <= c2 < c && c2 != DRUM_CHANNEL ==> #[trigger] self@.active[slot(
                        c2,
                        pitch as int,
                    )] == 0
            },
            r is None ==> forall|c: int|
                0 <= c < NUM_CHANNELS && c != DRUM_CHANNEL ==> #[trigger] self@.active[slot(
                    c,
                    pitch as int,
                )] == 0,
    {
        let mut ch: usize = 0;
        while ch < NUM_CHANNELS
            invariant
                self.wf(),
                pitch < NUM_PITCHES,
                ch <= NUM_CHANNELS,
                forall|c2: int|
                    0 <= c2 < ch && c2 != DRUM_CHANNEL ==> #[trigger] self@.active[slot(
                        c2,
                        pitch as int,
                    )] == 0,
            decreases NUM_CHANNELS - ch,
        {
            if ch != DRUM_CHANNEL as usize {
                let vel = self.active_pitches[ch * NUM_PITCHES + pitch as usize];
                if vel > 0 {
                    return Some((ch as u8, vel));
                }
            }
            ch = ch + 1;
        }
        None
    }

    /// The highest velocity among the held percussion keys of a drum lane;
    /// `None` when no key of the lane is held.
    pub fn drum_lane_peak(&self, lane: usize) -> (r: Option<u8>)
        requires
            self.wf(),
        ensures
            r is None <==> forall|p: int|
                0 <= p < NUM_PITCHES && drum_lane_of(p) == lane ==> #[trigger] self@.active[slot(
                    DRUM_CHANNEL as int,
                    p,
                )] == 0,
            r matches Some(v) ==> {
                &&& v > 0
                &&& exists|p: int|
                    0 <= p < NUM_PITCHES && drum_lane_of(p) == lane && #[trigger] self@.active[slot(
                        DRUM_CHANNEL as int,
                        p,
                    )] == v
                &&& forall|p: int|
                    0 <= p < NUM_PITCHES && drum_lane_of(p) == lane ==> #[trigger] self@.active[slot(
                        DRUM_CHANNEL as int,
                        p,
                    )] <= v
            },
    {
        let base = (DRUM_CHANNEL as usize) * NUM_PITCHES;
        let mut best: Option<u8> = None;
        let mut p: usize = 0;
        while p < NUM_PITCHES
            invariant
                self.wf(),
                base == slot(DRUM_CHANNEL as int, 0),
                p <= NUM_PITCHES,
                best is None ==> forall|q: int|
                    0 <= q < p && drum_lane_of(q) == lane ==> #[trigger] self@.active[slot(
                        DRUM_CHANNEL as int,
                        q,
                    )] == 0,
                best matches Some(v) ==> {
                    &&& v > 0
                    &&& exists|q: int|
                        0 <= q < p && drum_lane_of(q) == lane && #[trigger] self@.active[slot(
                            DRUM_CHANNEL as int,
                            q,
                        )] == v
                    &&& forall|q: int|
                        0 <= q < p && drum_lane_of(q) == lane ==> #[trigger] self@.active[slot(
                            DRUM_CHANNEL as int,
                            q,
                        )] <= v
                },
            decreases NUM_PITCHES - p,
        {
            let vel = self.active_pitches[base + p];
            assert(vel == self@.active[slot(DRUM_CHANNEL as int, p as int)]);
            if vel > 0 {
                let in_lane = match get_drum_lane(p as u8) {
                    Some((_, l)) => l == lane,
                    None => false,
                };
                if in_lane {
                    match best {
                        Some(b) => {
                            if vel > b {
                                best = Some(vel);
                            }
                        },
                        None => {
                            best = Some(vel);
                        },
                    }
                }
            }
            p = p + 1;
        }
        best
    }

    /// Whether any controller value is on the monitor.
    pub fn has_active_cc(&self) -> (r: bool)
        requires
            self.wf(),
        ensures
            r <==> exists|k: int| 0 <= k < CC_TABLE_SIZE && (#[trigger] self@.cc[k]) is Some,
    {
        let mut k: usize = 0;
        while k < CC_TABLE_SIZE
            invariant
                self.wf(),
                k <= CC_TABLE_SIZE,
                forall|j: int| 0 <= j < k ==> (#[trigger] self@.cc[j]) is None,
            decreases CC_TABLE_SIZE - k,
        {
            if self.cc_values[k].is_some() {
                return true;
            }
            k = k + 1;
        }
        false
    }

    /// The controller monitor's lines: (channel, controller, value) of each
    /// value shown, by channel and then by controller.
    pub fn active_cc_entries(&self) -> (r: Vec<(u8, u8, u8)>)
        requires
            self.wf(),
        ensures
            r@ == cc_lines(self@.cc, CC_TABLE_SIZE as int),
    {
        let mut lines: Vec<(u8, u8, u8)> = Vec::new();
        let mut k: usize = 0;
        while k < CC_TABLE_SIZE
            invariant
                self.wf(),
                k <= CC_TABLE_SIZE,
                lines@ == cc_lines(self@.cc, k as int),
            decreases CC_TABLE_SIZE - k,
        {
            if let Some((value, _)) = self.cc_values[k] {
                let channel = (k / NUM_CONTROLLERS) as u8;
                let controller = (k % NUM_CONTROLLERS) as u8;
                lines.push((channel, controller, value));
            }
            k = k + 1;
        }
        lines
    }

    /// The notes on the roll, oldest first.
    pub fn notes(&self) -> (r: &Vec<NoteInfo>)
        ensures
            r@ == self@.notes,
    {
        &self.notes
    }

    /// Whether the drum highway is shown.
    pub fn show_drums(&self) -> (r: bool)
        ensures
            r == self@.show_drums,
    {
        self.show_drums
    }

    /// Whether the controller monitor is shown.
    pub fn show_cc(&self) -> (r: bool)
        ensures
            r == self@.show_cc,
    {
        self.show_cc
    }

    /// Whether the key hints are shown.
    pub fn show_hints(&self) -> (r: bool)
        ensures
            r == self@.show_hints,
    {
        self.show_hints
    }

    /// Whether the channel legend is shown.
    pub fn show_legend(&self) -> (r: bool)
        ensures
            r == self@.show_legend,
    {
        self.show_legend
    }

    /// Whether velocities are written on the notes.
    pub fn show_velocity(&self) -> (r: bool)
        ensures
            r == self@.show_velocity,
    {
        self.show_velocity
    }
}


} // verus!
