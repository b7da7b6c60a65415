use phosphor_tui::keyboard::{
    band, column_of, is_black, white_index, whites_fitting, window_lo, KeyPaint, KEY_W, MARGIN, ROWS,
};
use phosphor_tui::theme::ActiveTheme;

fn cells_in(row: &[phosphor_tui::text::Span]) -> usize {
    row.iter().map(|s| s.text.chars().count()).sum()
}

/// The band is exactly as wide as it says it is, and never wider than the
/// space it was given.
#[test]
fn a_band_fits_the_width_it_was_given() {
    let t = ActiveTheme::new();
    for width in [0, 1, 4, 5, 20, 41, 108, 200] {
        let rows = band(&t, 21, 108, width, |n| KeyPaint::plain(&t, n));
        assert_eq!(rows.len(), ROWS);
        for row in &rows {
            let cells = cells_in(row);
            assert!(cells <= width, "{cells} cells in {width} columns");
            assert_eq!(
                cells,
                MARGIN.min(width) + whites_fitting(width).min(52) * KEY_W,
                "the band drew a different number of keys than it counted",
            );
        }
    }
}

/// The caret over a key lands on the key: the column a note is drawn in is
/// the column `column_of` names, black keys included.
#[test]
fn a_key_is_where_the_column_says_it_is() {
    // C3 is the 24th white key up from A0; C#3 shares its cell.
    assert_eq!(column_of(21, 60), MARGIN + 23 * KEY_W);
    assert_eq!(column_of(21, 61), MARGIN + 23 * KEY_W + 1);
    // E and B have no black key above them, so the next white starts one
    // cell along as usual.
    assert_eq!(column_of(21, 65) - column_of(21, 64), KEY_W);
}

/// A band too narrow for the bed scrolls in whole keys and keeps the cursor
/// on the screen, at either end of the keyboard.
#[test]
fn the_window_keeps_the_cursor_in_sight() {
    let (lo, hi) = (21u8, 108u8);
    for width in [20usize, 40, 60, 90] {
        for cursor in [21u8, 22, 40, 60, 61, 100, 108] {
            let start = window_lo(lo, hi, width, cursor);
            assert!(!is_black(start), "the band starts on a black key");
            let shown = whites_fitting(width).min(white_index(lo, hi) + 1);
            let anchor = if is_black(cursor) { cursor - 1 } else { cursor };
            assert!(anchor >= start, "cursor {cursor} is left of the window");
            assert!(
                white_index(start, anchor) < shown,
                "cursor {cursor} is right of a {width}-wide window",
            );
        }
    }
    // A window with room for the whole bed does not scroll at all.
    assert_eq!(window_lo(lo, hi, 200, 108), lo);
}
