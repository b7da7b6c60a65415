use phosphor_tui::knobs::{dial_at, dial_glyph, window, Knob, Panel};
use phosphor_tui::text::Span;
use phosphor_tui::theme::{track_color, ActiveTheme};

fn panel(t: &ActiveTheme, width: usize) -> Panel {
    Panel {
        cursor: 0,
        active: true,
        locked: false,
        focused: true,
        colour: track_color(t, 0),
        width,
        indent: 8,
    }
}

fn cells(spans: &[Span]) -> usize {
    spans.iter().map(|s| s.text.chars().count()).sum()
}

/// The dial reads its whole travel: empty at the bottom, full at the top,
/// and somewhere else in between.
#[test]
fn knobs_the_dial_covers_its_travel_and_survives_nonsense() {
    assert_eq!(dial_glyph(0), '\u{25CB}');
    assert_eq!(dial_glyph(4), '\u{25CF}');
    assert_ne!(dial_glyph(2), dial_glyph(0));
    // A step past the end of the ramp stays on it.
    assert_eq!(dial_glyph(200), '\u{25CF}');
    // The ends of a list are the ends of the travel.
    assert_eq!(dial_at(0, 5), 0);
    assert_eq!(dial_at(4, 5), 4);
    assert_eq!(dial_at(0, 1), 0);
}

/// A knob draws exactly as many cells as it says it does.
#[test]
fn knobs_a_knob_is_as_wide_as_it_says_it_is() {
    let t = ActiveTheme::new();
    let panel = panel(&t, 60);
    for knob in [
        Knob::new("pitch", "+12 st".to_string(), 2),
        Knob::toggle("keytrk", true),
        Knob::at("trig", "one-shot".to_string(), 0, 2),
        Knob::new("", String::new(), 0),
    ] {
        let drawn = cells(&panel.spans(&t, &knob, 0));
        assert_eq!(drawn, knob.width(), "{} draws {drawn} cells", knob.label);
    }
}

/// A wrapped panel never lays a row wider than the width it was given,
/// however narrow, save for one knob alone where even one does not fit.
#[test]
fn rows_never_run_past_the_right_edge() {
    let t = ActiveTheme::new();
    let knobs: Vec<Knob> = (0..6).map(|_| Knob::new("release", "1.50 s".to_string(), 2)).collect();
    for width in [12usize, 20, 30, 60, 200] {
        let panel = panel(&t, width);
        let (rows, _) = panel.rows(&t, "pad", &knobs);
        let longest = rows.iter().map(|r| cells(r)).max().unwrap_or(0);
        let one = panel.indent + knobs[0].width();
        assert!(longest <= width.max(one), "a {longest}-cell row in {width} columns");
    }
}

/// A panel taller than its space shows the row the cursor is on.
#[test]
fn knobs_a_windowed_panel_keeps_the_cursor_on_the_screen() {
    let rows: Vec<String> = (0..5).map(|index| format!("row {index}")).collect();
    for cursor in 0..5 {
        let shown = window(rows.clone(), 2, cursor);
        assert_eq!(shown.len(), 2);
        assert!(shown.contains(&format!("row {cursor}")), "row {cursor} fell off the screen: {shown:?}");
    }
    assert_eq!(window(rows.clone(), 9, 0).len(), 5, "a panel that fits is not windowed");
    assert!(window(rows, 0, 0).is_empty());
}

/// The knob under the cursor wraps onto the row the panel reports.
#[test]
fn the_cursor_row_is_the_row_holding_the_cursor_knob() {
    let t = ActiveTheme::new();
    let knobs: Vec<Knob> = (0..6).map(|_| Knob::new("release", "1.50 s".to_string(), 2)).collect();
    let mut p = panel(&t, 40);
    p.cursor = 5;
    let (rows, cursor_row) = p.rows(&t, "pad", &knobs);
    assert!(cursor_row < rows.len());
    // Twenty cells a knob after an indent of eight: one knob a row at forty.
    assert_eq!(rows.len(), 6);
    assert_eq!(cursor_row, 5);
}
