use phosphor_tui::fx::{alarm_style, cell_style, comp_key_label, is_wide, KeyTrack, KeyedTrack, WIDE_PANEL};
use phosphor_tui::theme::{dim, normal, rec_active_val, ActiveTheme};

#[test]
fn the_wide_layout_starts_at_ninety_five() {
    assert!(!is_wide(WIDE_PANEL - 1));
    assert!(is_wide(WIDE_PANEL));
}

#[test]
fn a_cell_reads_its_state() {
    let t = ActiveTheme::new();
    let held = cell_style(&t, true, true, true, true);
    assert!(held.bold);
    assert_eq!(cell_style(&t, false, false, false, true), dim(&t));
    assert_eq!(cell_style(&t, false, false, true, true), normal(&t));
    assert_eq!(alarm_style(&t).fg, Some(rec_active_val(&t)));
}

/// The key row names the track feeding the detector, or the name it had
/// when it has gone.
#[test]
fn the_key_row_names_the_source() {
    let tracks = vec![
        KeyTrack { mixer_id: Some(3), name: "Kick".to_string() },
        KeyTrack { mixer_id: None, name: "Bass".to_string() },
    ];
    let keyed = |source, name: Option<&str>| {
        Some(KeyedTrack { keyable: true, key_source: source, key_source_name: name.map(|n| n.to_string()) })
    };
    assert_eq!(comp_key_label(&tracks, &keyed(Some(3), None)), "Kick");
    assert_eq!(comp_key_label(&tracks, &keyed(Some(9), Some("Snare"))), "Snare (missing)");
    assert_eq!(comp_key_label(&tracks, &keyed(Some(9), None)), "(missing)");
    assert_eq!(comp_key_label(&tracks, &keyed(None, None)), "internal");
    assert_eq!(comp_key_label(&tracks, &None), "internal");
    let bus = Some(KeyedTrack { keyable: false, key_source: Some(3), key_source_name: None });
    assert_eq!(comp_key_label(&tracks, &bus), "internal");
}
