use phosphor_tui::meters::{bar_text, blink_on, meter_spans, GR_PANEL_WIDTH};
use phosphor_tui::theme::ActiveTheme;

const DOT: &str = "\u{00b7}";
const LIT: &str = "\u{2588}";

// How many cells a reduction lights is worked out from its decibels by the
// caller; these tests give the bar the counts the meter's scale makes of
// typical readings (a decibel and a half is three cells of twenty-four,
// six decibels twelve, twenty all of them; eight decibels of peak, fourteen).

/// The bar grows leftward from a right-hand zero.
#[test]
fn the_bar_reads_downward_from_the_right() {
    assert_eq!(bar_text(0, 0, 8), DOT.repeat(8));
    let bar = bar_text(4, 4, 8);
    assert_eq!(bar.chars().count(), 8);
    assert_eq!(bar, format!("{}{}", DOT.repeat(4), LIT.repeat(4)));
}

/// The peak cell sits out ahead of the bar, and rejoins it when it falls
/// back.
#[test]
fn the_peak_cell_stands_ahead_of_the_bar() {
    // Three decibels light three cells of twelve; twelve decibels of peak
    // hold nine.
    let bar = bar_text(3, 9, 12);
    let cells: Vec<char> = bar.chars().collect();
    assert_eq!(cells.len(), 12);
    let peak_at = 12 - 9;
    assert_eq!(cells[peak_at], '\u{2590}', "the cell is not at the peak position");
    assert!(cells[11] == '\u{2588}', "the bar does not reach the zero end");
    assert!(cells[peak_at + 1] == '\u{00b7}', "the gap between cell and bar is filled");

    // Level with the bar, the cell disappears into it.
    let bar = bar_text(6, 6, 12);
    assert!(!bar.contains('\u{2590}'));
}

/// The widget, drawn, at the panel's width.
#[test]
fn the_bar_is_drawn_like_this() {
    const W: usize = GR_PANEL_WIDTH;
    assert_eq!(bar_text(0, 0, W), DOT.repeat(24));
    assert_eq!(bar_text(3, 3, W), format!("{}{}", DOT.repeat(21), LIT.repeat(3)));
    assert_eq!(bar_text(12, 12, W), format!("{}{}", DOT.repeat(12), LIT.repeat(12)));
    assert_eq!(bar_text(24, 24, W), LIT.repeat(24));
    assert_eq!(bar_text(6, 14, W), format!("{}\u{2590}{}{}", DOT.repeat(10), DOT.repeat(7), LIT.repeat(6)));

    let t = ActiveTheme::new();
    let drawn: String = meter_spans(&t, "gr", true, 12, 12, W, " -6.0")
        .iter()
        .map(|s| s.text.as_str())
        .collect();
    assert_eq!(drawn, format!("gr \u{2595}{}{}\u{258F}  -6.0 dB", DOT.repeat(12), LIT.repeat(12)));
}

/// The styled version draws the same cells as the text one, wrapped in the
/// rails, the label and the number.
#[test]
fn the_styled_bar_matches_the_text_one() {
    let t = ActiveTheme::new();
    let spans = meter_spans(&t, "gr", true, 6, 9, 12, " -6.0");
    let drawn: String = spans.iter().map(|s| s.text.as_str()).collect();
    assert!(drawn.starts_with("gr \u{2595}"), "{drawn}");
    assert!(drawn.ends_with("-6.0 dB"), "{drawn}");
    let bar: String = spans[2..2 + 12].iter().map(|s| s.text.as_str()).collect();
    assert_eq!(bar, bar_text(6, 9, 12));

    // No label, no leading space.
    let spans = meter_spans(&t, "", false, 0, 0, 8, "  0.0");
    let drawn: String = spans.iter().map(|s| s.text.as_str()).collect();
    assert!(drawn.starts_with('\u{2595}'), "{drawn}");
}

/// A meter at rest greys out; a working one draws its number bold.
#[test]
fn a_meter_at_rest_greys_out() {
    let t = ActiveTheme::new();
    let rest = meter_spans(&t, "lim", false, 0, 0, 8, "  0.0");
    let work = meter_spans(&t, "lim", true, 2, 2, 8, " -1.2");
    assert!(!rest.last().unwrap().style.bold);
    assert!(work.last().unwrap().style.bold);
    assert_ne!(rest[0].style, work[0].style);
}

/// A blinking thing is lit for half a second, dark for the next half, and
/// lit again after that.
#[test]
fn a_blink_is_half_a_second_on_and_half_off() {
    assert!(blink_on(0));
    assert!(blink_on(499));
    assert!(!blink_on(500));
    assert!(!blink_on(999));
    assert!(blink_on(1000));
    assert!(blink_on(1_000_250));
}
