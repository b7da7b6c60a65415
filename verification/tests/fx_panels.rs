use phosphor_tui::fx_panels::{
    fx_panel, midi_fx_lines, none_open_line, param_lines, FxKind, FxPanel, ListShape, MidiParam, ParamCell,
};
use phosphor_tui::text::Span;
use phosphor_tui::theme::ActiveTheme;

fn line(spans: &[Span]) -> String {
    spans.iter().map(|s| s.text.as_str()).collect()
}

fn cells(n: usize) -> Vec<ParamCell> {
    (0..n)
        .map(|i| ParamCell { name: format!("p{i}"), value: format!("{i}0%"), live: i != 3, alarm: i == 5 })
        .collect()
}

fn head() -> Vec<Vec<Span>> {
    vec![vec![Span::styled(" dly slot 1".to_string(), phosphor_tui::style::Style::new())], vec![]]
}

/// One column scrolls so the control under the cursor is drawn, and the keys
/// take the last line.
#[test]
fn one_column_scrolls_to_the_cursor() {
    let t = ActiveTheme::new();
    let shape = ListShape { value_w: 15, two_columns: false };
    let lines = param_lines(&t, head(), &cells(16), 12, false, true, shape, 8);
    let shown: Vec<String> = lines.iter().map(|l| line(l)).collect();
    assert_eq!(shown.len(), 8);
    assert_eq!(shown[0], " dly slot 1");
    assert_eq!(shown[2], " p8     80%            ");
    assert_eq!(shown[6], "\u{25B8}p12    120%           ");
    assert_eq!(shown[7], "  j/k picks \u{00b7} h/l adjusts \u{00b7} H/L strides \u{00b7} enter holds");
    let held = param_lines(&t, head(), &cells(16), 99, true, true, shape, 8);
    assert!(line(&held[6]).starts_with("\u{25B8}p15"), "a cursor past the end is not on the last control");
    assert!(line(&held[7]).contains("esc lets go"));
}

/// Two columns put the second half beside the first, with a gap.
#[test]
fn two_columns_sit_side_by_side() {
    let t = ActiveTheme::new();
    let shape = ListShape { value_w: 11, two_columns: true };
    let lines = param_lines(&t, head(), &cells(5), 0, false, false, shape, 20);
    let shown: Vec<String> = lines.iter().map(|l| line(l)).collect();
    assert_eq!(shown.len(), 2 + 3 + 1);
    assert_eq!(shown[2], "\u{25B8}p0     00%           p3     30%        ");
    assert_eq!(shown[4], " p2     20%          ", "the gap is drawn whether or not a control follows it");
    let short = param_lines(&t, head(), &cells(5), 0, false, false, shape, 3);
    assert_eq!(short.len(), 3);
}

/// A MIDI effect's panel: its name, a line a control with the cursor's
/// marked, and the keys.
#[test]
fn a_midi_effect_reads_its_controls() {
    let t = ActiveTheme::new();
    let params = vec![
        MidiParam { name: "rate".to_string(), shown: "1/16".to_string() },
        MidiParam { name: "gate".to_string(), shown: "50%".to_string() },
    ];
    let lines = midi_fx_lines(&t, "arp", true, &params, 1, true, 20);
    let shown: Vec<String> = lines.iter().map(|l| line(l)).collect();
    assert_eq!(shown.len(), 6);
    assert_eq!(shown[0], "  arp \u{00b7} midi \u{00b7} plays live and on playback  \u{00b7} bypassed");
    assert_eq!(shown[2], "   rate    1/16");
    assert_eq!(shown[3], " \u{25B6} gate    50%");
    assert!(lines[3][0].style.underlined, "a held control is not underlined");
    assert_eq!(shown[5], "  j/k knob \u{00b7} h/l adjust \u{00b7} b bypass \u{00b7} esc back");
    assert_eq!(midi_fx_lines(&t, "arp", false, &params, 0, false, 3).len(), 3);
}

/// An open MIDI effect wins over an audio slot; a slot past the chain, no
/// track or no room shows nothing; no slot at all says so.
#[test]
fn the_pane_shows_the_effect_that_is_open() {
    let chain = vec![FxKind::Eq, FxKind::Delay];
    assert_eq!(fx_panel(40, 10, true, None, Some(1), &chain), FxPanel::Effect(FxKind::Delay, 1));
    assert_eq!(fx_panel(40, 10, true, Some(0), Some(1), &chain), FxPanel::Midi(0));
    assert_eq!(fx_panel(40, 10, true, None, None, &chain), FxPanel::NoneOpen);
    assert_eq!(fx_panel(40, 10, true, None, Some(2), &chain), FxPanel::Blank);
    assert_eq!(fx_panel(40, 10, false, None, Some(0), &chain), FxPanel::Blank);
    assert_eq!(fx_panel(0, 10, true, None, Some(0), &chain), FxPanel::Blank);
    let t = ActiveTheme::new();
    assert_eq!(line(&none_open_line(&t)), "  no effect open \u{2014} enter on a slot in [trk fx]");
}
