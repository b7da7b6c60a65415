use phosphor_tui::keyboard::column_of;
use phosphor_tui::style::Color;
use phosphor_tui::text::Span;
use phosphor_tui::theme::ActiveTheme;
use phosphor_tui::zones::{rule_line, ZoneSpan};

fn drawn(spans: &[Span]) -> String {
    spans.iter().map(|s| s.text.as_str()).collect()
}

/// A zone from C2 to B3 whose sound was recorded at C3.
fn piano() -> ZoneSpan {
    ZoneSpan { lo: 48 - 21, hi: 71 - 21, root: 60 }
}

/// The rule draws a brace under the keys the zone holds, with a tick where
/// its root is, and nothing under the keys it does not.
#[test]
fn the_rule_braces_the_keys_the_zone_holds() {
    let t = ActiveTheme::new();
    let line = drawn(&rule_line(&t, &vec![piano()], 21, 200, Some(0), false, Color::Rgb(200, 100, 50)));
    assert!(line.contains('\u{251C}'), "the brace has no left end:\n{line}");
    assert!(line.contains('\u{2524}'), "the brace has no right end:\n{line}");
    assert!(line.contains('\u{253C}'), "the root is not ticked:\n{line}");
    let root_cell = line.chars().position(|c| c == '\u{253C}').expect("no tick");
    assert_eq!(root_cell, column_of(21, 60), "the tick is on the wrong key");
    let first = line.chars().position(|c| c == '\u{251C}').expect("no left end");
    assert_eq!(first, column_of(21, 48), "the brace starts on the wrong key");
    assert_eq!(line.chars().count(), 200);
}

/// A bed with no zones draws no rule at all.
#[test]
fn a_bed_with_no_zones_draws_an_empty_rule() {
    let t = ActiveTheme::new();
    let line = drawn(&rule_line(&t, &vec![], 21, 120, None, false, Color::Rgb(200, 100, 50)));
    assert!(line.trim().is_empty(), "something was drawn for no zones:\n{line}");
    assert_eq!(line.chars().count(), 120);
}

/// Two zones that touch meet as `┤├`, with no gap between them, and each
/// is drawn in its own style.
#[test]
fn two_zones_that_touch_meet_without_a_gap() {
    let t = ActiveTheme::new();
    let low = ZoneSpan { lo: 48 - 21, hi: 59 - 21, root: 48 };
    let high = ZoneSpan { lo: 60 - 21, hi: 71 - 21, root: 72 };
    let spans = rule_line(&t, &vec![low, high], 21, 200, None, false, Color::Rgb(200, 100, 50));
    let line = drawn(&spans);
    let meet = column_of(21, 60);
    let cells: Vec<char> = line.chars().collect();
    assert_eq!(cells[meet - 1], '\u{2524}', "the low zone does not end at B3:\n{line}");
    assert_eq!(cells[meet], '\u{251C}', "the high zone does not start at C4:\n{line}");
    assert!(spans.len() >= 3, "the two zones share one style");
}

/// A rule too narrow for the zone's keys draws what fits and no more.
#[test]
fn the_rule_is_as_wide_as_it_is_asked_to_be() {
    let t = ActiveTheme::new();
    for width in [0usize, 1, 10, 40, 73] {
        let line = drawn(&rule_line(&t, &vec![piano()], 21, width, Some(0), true, Color::Rgb(1, 2, 3)));
        assert_eq!(line.chars().count(), width);
    }
}
