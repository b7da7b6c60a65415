use phosphor_tui::lane::{bar_row, label_row, play_column};
use phosphor_tui::text::Span;
use phosphor_tui::theme::ActiveTheme;

fn text(spans: &[Span]) -> String {
    spans.iter().map(|s| s.text.as_str()).collect()
}

#[test]
fn the_label_names_the_stream() {
    let t = ActiveTheme::new();
    assert_eq!(text(&label_row(&t, "cc1", 0, 1, false, 16)), "       auto cc1 \u{2502}");
    assert_eq!(text(&label_row(&t, "cc1", 5, 3, false, 6)), "auto cc1 (3/3) \u{2502}");
    assert!(text(&label_row(&t, "cc1", 0, 1, true, 6)).ends_with(" jk draw \u{00b7} [ ] lane \u{00b7} d clear"));
}

/// A value fills its band with a cap and the bands under it solid.
#[test]
fn the_bars_stand_on_the_bottom() {
    let t = ActiveTheme::new();
    let values = vec![Some(127u8), Some(0), None, Some(64)];
    let rows: Vec<String> = (0..4)
        .map(|r| {
            let spans = bar_row(&t, &values, r, 4, 2, 8, 6, None, None, false);
            spans[2..].iter().map(|s| s.text.as_str()).collect()
        })
        .collect();
    assert_eq!(rows[0], "\u{2584}\u{2584}      ");
    assert_eq!(rows[3], "\u{2588}\u{2588}\u{2584}\u{2584}  \u{2588}\u{2588}");
    assert_eq!(rows[1], "\u{2588}\u{2588}    \u{2584}\u{2584}");
}

#[test]
fn the_playhead_column() {
    assert_eq!(play_column(true, 1000, 0, 4000, 16, 0, 16), Some(4));
    assert_eq!(play_column(true, 1000, 0, 4000, 16, 2, 16), Some(2));
    assert_eq!(play_column(true, 1000, 0, 4000, 16, 5, 16), None);
    assert_eq!(play_column(false, 1000, 0, 4000, 16, 0, 16), None);
    assert_eq!(play_column(true, 5000, 0, 4000, 16, 0, 16), None);
}
