use midi_piano_roll::{
    drum_lane_label, get_drum_lane, get_key_pos, parse_midi_message, select_input_port,
    KeyPresses, MidiMessage, NoteInfo, PianoRollApp,
};

fn no_keys() -> KeyPresses {
    KeyPresses {
        toggle_drums: false,
        toggle_cc: false,
        toggle_legend: false,
        toggle_velocity: false,
        toggle_hints: false,
        reset_notes: false,
    }
}

fn note_on(channel: u8, pitch: u8, velocity: u8, timestamp: u64) -> MidiMessage {
    MidiMessage::NoteOn { channel, pitch, velocity, timestamp }
}

fn note_off(channel: u8, pitch: u8, timestamp: u64) -> MidiMessage {
    MidiMessage::NoteOff { channel, pitch, timestamp }
}

#[test]
fn parse_note_on() {
    assert_eq!(
        parse_midi_message(&[0x93, 60, 100], 42),
        Some(note_on(3, 60, 100, 42))
    );
}

#[test]
fn parse_note_on_velocity_zero_is_note_off() {
    assert_eq!(parse_midi_message(&[0x90, 64, 0], 5), Some(note_off(0, 64, 5)));
}

#[test]
fn parse_note_off() {
    assert_eq!(parse_midi_message(&[0x8F, 21, 77], 9), Some(note_off(15, 21, 9)));
}

#[test]
fn parse_control_change() {
    assert_eq!(
        parse_midi_message(&[0xB2, 7, 127, 0xFF], 1),
        Some(MidiMessage::ControlChange { channel: 2, controller: 7, value: 127, timestamp: 1 })
    );
}

#[test]
fn parse_ignores_other_kinds_and_short_packets() {
    assert_eq!(parse_midi_message(&[0xC0, 5, 0], 0), None);
    assert_eq!(parse_midi_message(&[0xE0, 0, 64], 0), None);
    assert_eq!(parse_midi_message(&[0x90, 60], 0), None);
    assert_eq!(parse_midi_message(&[], 0), None);
}

#[test]
fn key_positions() {
    assert_eq!(get_key_pos(21), (false, 0));
    assert_eq!(get_key_pos(22), (true, 1));
    assert_eq!(get_key_pos(23), (false, 2));
    assert_eq!(get_key_pos(24), (false, 4));
    assert_eq!(get_key_pos(60), (false, 46));
    assert_eq!(get_key_pos(61), (true, 47));
    assert_eq!(get_key_pos(65), (false, 52));
    assert_eq!(get_key_pos(108), (false, 102));
    assert_eq!(get_key_pos(20), (false, 0));
    assert_eq!(get_key_pos(109), (false, 0));
}

#[test]
fn key_positions_increase_and_black_keys_are_odd() {
    let mut last: Option<u32> = None;
    for p in 21u8..=108 {
        let (black, pos) = get_key_pos(p);
        assert_eq!(black, pos % 2 == 1);
        if let Some(prev) = last {
            assert!(pos > prev);
        }
        last = Some(pos);
    }
    let white = (21u8..=108).filter(|&p| !get_key_pos(p).0).count();
    assert_eq!(white, 52);
}

#[test]
fn drum_lanes() {
    assert_eq!(get_drum_lane(36), Some(("KICK", 0)));
    assert_eq!(get_drum_lane(40), Some(("SNR", 1)));
    assert_eq!(get_drum_lane(42), Some(("CHH", 2)));
    assert_eq!(get_drum_lane(46), Some(("OHH", 3)));
    assert_eq!(get_drum_lane(50), Some(("TOM", 4)));
    assert_eq!(get_drum_lane(57), Some(("CRSH", 5)));
    assert_eq!(get_drum_lane(59), Some(("RIDE", 6)));
    assert_eq!(get_drum_lane(0), Some(("PERC", 7)));
    assert_eq!(get_drum_lane(127), Some(("PERC", 7)));
    for p in 0u8..=255 {
        let (label, lane) = get_drum_lane(p).unwrap();
        assert!(lane < 8);
        assert_eq!(label, drum_lane_label(lane));
    }
}

#[test]
fn port_selection_prefers_midi_through() {
    let names = vec![
        "USB Keyboard".to_string(),
        "Midi Through:Midi Through Port-0 14:0".to_string(),
        "Another Midi Through".to_string(),
    ];
    assert_eq!(select_input_port(&names), Some(1));
    let names = vec!["USB Keyboard".to_string(), "Synth".to_string()];
    assert_eq!(select_input_port(&names), Some(0));
    assert_eq!(select_input_port(&Vec::new()), None);
    let names = vec!["".to_string(), "midi through".to_string()];
    assert_eq!(select_input_port(&names), Some(0));
}

#[test]
fn new_roll_is_empty() {
    let app = PianoRollApp::new();
    assert!(app.notes().is_empty());
    assert!(app.show_drums() && app.show_cc());
    assert!(!app.show_hints() && !app.show_legend() && !app.show_velocity());
    assert!(!app.has_active_cc());
    assert_eq!(app.get_active_key(60), None);
    assert_eq!(app.drum_lane_peak(0), None);
}

#[test]
fn note_on_then_off_round_trip() {
    let mut app = PianoRollApp::new();
    app.handle_message(note_on(1, 60, 90, 1_000));
    assert_eq!(app.get_active_key(60), Some((1, 90)));
    app.handle_message(note_off(1, 60, 2_000));
    assert_eq!(app.get_active_key(60), None);
    assert_eq!(
        app.notes(),
        &vec![NoteInfo { channel: 1, pitch: 60, velocity: 90, start_time: 1_000, end_time: Some(2_000) }]
    );
}

#[test]
fn note_off_releases_most_recent_held_note() {
    let mut app = PianoRollApp::new();
    app.handle_message(note_on(0, 60, 10, 1));
    app.handle_message(note_on(0, 60, 20, 2));
    app.handle_message(note_on(1, 60, 30, 3));
    app.handle_message(note_off(0, 60, 4));
    let notes = app.notes();
    assert_eq!(notes[0].end_time, None);
    assert_eq!(notes[1].end_time, Some(4));
    assert_eq!(notes[2].end_time, None);
    app.handle_message(note_off(0, 60, 5));
    assert_eq!(app.notes()[0].end_time, Some(5));
    app.handle_message(note_off(0, 60, 6));
    assert_eq!(app.notes()[0].end_time, Some(5));
    assert_eq!(app.notes()[1].end_time, Some(4));
    assert_eq!(app.notes().len(), 3);
}

#[test]
fn active_key_skips_percussion_and_picks_lowest_channel() {
    let mut app = PianoRollApp::new();
    app.handle_message(note_on(9, 60, 100, 0));
    assert_eq!(app.get_active_key(60), None);
    app.handle_message(note_on(5, 60, 50, 0));
    app.handle_message(note_on(3, 60, 70, 0));
    assert_eq!(app.get_active_key(60), Some((3, 70)));
}

#[test]
fn drum_lane_peak_is_highest_velocity_in_lane() {
    let mut app = PianoRollApp::new();
    app.handle_message(note_on(9, 35, 40, 0));
    app.handle_message(note_on(9, 36, 90, 0));
    app.handle_message(note_on(9, 38, 120, 0));
    app.handle_message(note_on(0, 36, 127, 0));
    assert_eq!(app.drum_lane_peak(0), Some(90));
    assert_eq!(app.drum_lane_peak(1), Some(120));
    assert_eq!(app.drum_lane_peak(2), None);
    app.handle_message(note_off(9, 36, 1));
    assert_eq!(app.drum_lane_peak(0), Some(40));
}

#[test]
fn control_changes_listed_by_channel_then_controller() {
    let mut app = PianoRollApp::new();
    app.handle_message(MidiMessage::ControlChange { channel: 2, controller: 7, value: 100, timestamp: 0 });
    app.handle_message(MidiMessage::ControlChange { channel: 0, controller: 64, value: 127, timestamp: 0 });
    app.handle_message(MidiMessage::ControlChange { channel: 0, controller: 1, value: 5, timestamp: 0 });
    app.handle_message(MidiMessage::ControlChange { channel: 0, controller: 1, value: 6, timestamp: 0 });
    assert!(app.has_active_cc());
    assert_eq!(app.active_cc_entries(), vec![(0, 1, 6), (0, 64, 127), (2, 7, 100)]);
}

#[test]
fn control_values_expire_after_timeout() {
    let mut app = PianoRollApp::new();
    app.handle_message(MidiMessage::ControlChange { channel: 0, controller: 1, value: 5, timestamp: 1_000_000 });
    app.handle_message(MidiMessage::ControlChange { channel: 0, controller: 2, value: 9, timestamp: 2_000_000 });
    app.expire_cc(4_000_000);
    assert_eq!(app.active_cc_entries(), vec![(0, 1, 5), (0, 2, 9)]);
    app.expire_cc(4_000_001);
    assert_eq!(app.active_cc_entries(), vec![(0, 2, 9)]);
    app.expire_cc(4_000_001);
    assert_eq!(app.active_cc_entries(), vec![(0, 2, 9)]);
    app.expire_cc(5_000_001);
    assert!(!app.has_active_cc());
}

#[test]
fn prune_drops_released_notes_off_screen() {
    let mut app = PianoRollApp::new();
    app.handle_message(note_on(0, 60, 80, 0));
    app.handle_message(note_off(0, 60, 1_000_000));
    app.handle_message(note_on(0, 62, 80, 0));
    // 150 px/s: after 4 s the released note has scrolled 600 px
    app.prune_notes(5_000_000, 601);
    assert_eq!(app.notes().len(), 2);
    app.prune_notes(5_000_000, 600);
    assert_eq!(app.notes().len(), 1);
    assert_eq!(app.notes()[0].pitch, 62);
    app.prune_notes(u64::MAX, 0);
    assert_eq!(app.notes().len(), 1);
}

#[test]
fn prune_keeps_notes_released_in_the_future() {
    let mut app = PianoRollApp::new();
    app.handle_message(note_on(0, 60, 80, 0));
    app.handle_message(note_off(0, 60, 10));
    app.prune_notes(5, 0);
    assert_eq!(app.notes().len(), 1);
}

#[test]
fn reset_releases_held_notes_and_keys() {
    let mut app = PianoRollApp::new();
    app.handle_message(note_on(0, 60, 80, 0));
    app.handle_message(note_off(0, 60, 3));
    app.handle_message(note_on(2, 64, 80, 1));
    app.handle_message(note_on(9, 36, 80, 2));
    app.reset_notes(7);
    let ends: Vec<Option<u64>> = app.notes().iter().map(|n| n.end_time).collect();
    assert_eq!(ends, vec![Some(3), Some(7), Some(7)]);
    assert_eq!(app.get_active_key(64), None);
    assert_eq!(app.drum_lane_peak(0), None);
}

#[test]
fn toggles_flip_and_flip_back() {
    let mut app = PianoRollApp::new();
    let keys = KeyPresses {
        toggle_drums: true,
        toggle_cc: true,
        toggle_legend: true,
        toggle_velocity: true,
        toggle_hints: true,
        reset_notes: false,
    };
    app.apply_toggles(keys);
    assert!(!app.show_drums() && !app.show_cc());
    assert!(app.show_hints() && app.show_legend() && app.show_velocity());
    app.apply_toggles(keys);
    assert!(app.show_drums() && app.show_cc());
    assert!(!app.show_hints() && !app.show_legend() && !app.show_velocity());
}

#[test]
fn update_runs_a_whole_frame() {
    let mut app = PianoRollApp::new();
    let mut keys = no_keys();
    keys.toggle_legend = true;
    app.update(keys, &[note_on(0, 60, 80, 10), note_on(0, 62, 81, 20)], 30, 720);
    assert!(app.show_legend());
    assert_eq!(app.notes().len(), 2);
    let mut keys = no_keys();
    keys.reset_notes = true;
    app.update(
        keys,
        &[note_on(0, 64, 82, 40), MidiMessage::ControlChange { channel: 1, controller: 10, value: 3, timestamp: 40 }],
        40,
        720,
    );
    let ends: Vec<Option<u64>> = app.notes().iter().map(|n| n.end_time).collect();
    assert_eq!(ends, vec![Some(40), Some(40), None]);
    assert_eq!(app.get_active_key(64), Some((0, 82)));
    assert_eq!(app.get_active_key(60), None);
    assert_eq!(app.active_cc_entries(), vec![(1, 10, 3)]);
    // ten seconds later: the released notes are off a 720 px screen, the
    // controller value has timed out, the held note stays
    app.update(no_keys(), &[], 10_000_040, 720);
    assert_eq!(app.notes().len(), 1);
    assert_eq!(app.notes()[0].pitch, 64);
    assert!(!app.has_active_cc());
}

#[test]
fn messages_in_two_runs_equal_one_run() {
    let msgs = [
        note_on(0, 60, 80, 1),
        note_on(0, 60, 90, 2),
        note_off(0, 60, 3),
        MidiMessage::ControlChange { channel: 4, controller: 4, value: 4, timestamp: 4 },
        note_off(0, 60, 5),
    ];
    let mut one = PianoRollApp::new();
    one.handle_messages(&msgs);
    let mut two = PianoRollApp::new();
    two.handle_messages(&msgs[..2]);
    two.handle_messages(&msgs[2..]);
    assert_eq!(one.notes(), two.notes());
    assert_eq!(one.active_cc_entries(), two.active_cc_entries());
    assert_eq!(one.get_active_key(60), two.get_active_key(60));
}

#[test]
fn lit_key_keeps_its_held_note_across_frames() {
    let mut app = PianoRollApp::new();
    app.update(no_keys(), &[note_on(0, 60, 70, 0), note_off(0, 60, 1), note_on(0, 60, 90, 2)], 3, 720);
    app.update(no_keys(), &[note_on(2, 61, 40, 100)], 60_000_000, 720);
    // the first note has scrolled away; the lit key's latest note is held
    assert_eq!(app.get_active_key(60), Some((0, 90)));
    let latest = app.notes().iter().rev().find(|n| n.channel == 0 && n.pitch == 60).unwrap();
    assert_eq!(latest.end_time, None);
    assert_eq!(latest.velocity, 90);
    assert_eq!(app.notes().len(), 2);
}

#[test]
fn port_selection_matches_names_with_non_ascii_characters() {
    let names = vec!["Clé USB".to_string(), "Süß Midi Through Port".to_string()];
    assert_eq!(select_input_port(&names), Some(1));
    let names = vec!["Midi Throug".to_string(), "Midi".to_string()];
    assert_eq!(select_input_port(&names), Some(0));
}
