use phosphor_tui::notes::{drum_label, is_black_key, midi_note_name, slot_letter};

/// Middle C is C4; the names carry their sharps, and the lowest octave is -1.
#[test]
fn notes_are_named_with_their_octave() {
    assert_eq!(midi_note_name(60), "C4");
    assert_eq!(midi_note_name(61), "C#4");
    assert_eq!(midi_note_name(21), "A0");
    assert_eq!(midi_note_name(0), "C-1");
    assert_eq!(midi_note_name(127), "G9");
    assert_eq!(midi_note_name(108), "C8");
}

#[test]
fn the_black_keys_are_the_sharps() {
    let blacks: Vec<u8> = (60..72).filter(|n| is_black_key(*n)).collect();
    assert_eq!(blacks, vec![61, 63, 66, 68, 70]);
}

/// General MIDI percussion in two letters, and the note number elsewhere.
#[test]
fn drum_voices_read_like_the_front_panel() {
    assert_eq!(drum_label(36), "BD");
    assert_eq!(drum_label(38), "SD");
    assert_eq!(drum_label(42), "CH");
    assert_eq!(drum_label(46), "OH");
    assert_eq!(drum_label(75), "CL");
    assert_eq!(drum_label(58), "58");
    assert_eq!(drum_label(100), "100");
}

/// Slots are A to H, and anything past the last is the last.
#[test]
fn slots_are_lettered() {
    assert_eq!(slot_letter(0), 'A');
    assert_eq!(slot_letter(7), 'H');
    assert_eq!(slot_letter(200), 'H');
}
