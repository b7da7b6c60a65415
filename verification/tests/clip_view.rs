use phosphor_tui::clip_view::{settings_lines, tab_line, tab_line_cased, ClipInfo, RollSettings, SeqInfo, Tab};
use phosphor_tui::text::Span;
use phosphor_tui::theme::ActiveTheme;

fn line(spans: &[Span]) -> String {
    spans.iter().map(|s| s.text.as_str()).collect()
}

fn tab(label: &str, active: bool) -> Tab {
    Tab { label: label.to_string(), active }
}

/// The tab line: the effect tabs, a rule, the clip tabs, and what is being
/// edited, with the track's name in capitals.
#[test]
fn the_tab_line_names_what_is_being_edited() {
    let t = ActiveTheme::new();
    let fx = vec![tab("track fx", false), tab("synth", false)];
    let clip = vec![tab("piano", true), tab("settings", false)];
    let info = Some(ClipInfo { track: "Bass".to_string(), number: 2, total: 3, edit: Some("sel".to_string()) });
    let shown = line(&tab_line(&t, true, &fx, &clip, &info, &None));
    assert_eq!(
        shown,
        "\u{00B3} [track fx] [synth]  \u{2502} [piano] [settings]  BASS \u{00B7} clip 2/3 [EDIT:sel]"
    );
    let grid = Some(SeqInfo { track: Some("drums".to_string()), band: "grid".to_string(), locked: true });
    let shown = line(&tab_line(&t, false, &fx, &vec![tab("seq", true)], &None, &grid));
    assert!(shown.ends_with("[seq]  DRUMS \u{00B7} seq [SEQ:grid hold]"), "{shown}");

    // Given names already cased, the line writes them as they are.
    let shown = line(&tab_line_cased(&t, false, &fx, &vec![tab("seq", true)], &None, &grid));
    assert!(shown.ends_with("[seq]  drums \u{00B7} seq [SEQ:grid hold]"), "{shown}");
}

/// The settings page marks the setting under the cursor only while it has
/// the keys, and says whether the edit mode is on.
#[test]
fn the_settings_page_reads_the_roll() {
    let t = ActiveTheme::new();
    let s = RollSettings {
        grid: "1/16".to_string(),
        snap: true,
        velocity: 100,
        rec_quant: None,
        edit_mode: false,
    };
    let lines = settings_lines(&t, &s, 2, true);
    let shown: Vec<String> = lines.iter().map(|l| line(l)).collect();
    assert_eq!(shown[0], "  Piano Roll Settings");
    assert_eq!(shown[2], "  Grid       1/16");
    assert_eq!(shown[3], "  Snap       on");
    assert_eq!(shown[4], "\u{25B8} Velocity   100");
    assert_eq!(shown[5], "  Rec quant  off");
    assert_eq!(shown[7], "  h/l to adjust, j/k to navigate");
    assert_eq!(shown[8], "  Edit mode: Space+E (off)");
    let idle = settings_lines(&t, &s, 2, false);
    assert_eq!(idle.len(), 8);
    assert!(!line(&idle[4]).contains('\u{25B8}'));
}
