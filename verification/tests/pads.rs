use phosphor_tui::keyboard::{column_of, window_lo, KeyPaint, ROWS};
use phosphor_tui::kit::band_lines;
use phosphor_tui::pads::{caret_line, clip_text, count_glyph, key_paint, KeyLoad, Row};
use phosphor_tui::style::{Color, Style};
use phosphor_tui::theme::{amber_bright_val, piano_white_bg, rec_active_val, track_color, ActiveTheme};

fn cells(spans: &[phosphor_tui::text::Span]) -> usize {
    spans.iter().map(|s| s.text.chars().count()).sum()
}

/// A column that does not fit is not drawn at all; a warning takes the
/// widest form that fits.
#[test]
fn a_row_drops_what_does_not_fit() {
    let mut row = Row::new(10);
    row.push("kick".to_string(), Style::new());
    row.push(" 1.00s".to_string(), Style::new());
    row.push("  one-shot".to_string(), Style::new());
    assert_eq!(row.left(), 0);
    let mut narrow = Row::new(6);
    narrow.push("pad".to_string(), Style::new());
    narrow.push_widest(&vec![" no instrument", " !"], Style::new());
    let spans = narrow.line();
    let text: String = spans.iter().map(|s| s.text.as_str()).collect();
    assert_eq!(text, "pad !");
}

/// A name cut to the room it has ends in an ellipsis, and one that fits is
/// left alone.
#[test]
fn names_are_cut_with_an_ellipsis() {
    assert_eq!(clip_text("snare", 10), "snare");
    assert_eq!(clip_text("snare drum", 6), "snare\u{2026}");
    assert_eq!(clip_text("snare", 1), "\u{2026}");
    // With no room at all, nothing is drawn.
    assert_eq!(clip_text("snare", 0), "");
}

/// The bed as the pads load it: every key addresses its pad, and each
/// listed note plays `count` sounds, `missing` if one has lost its file.
fn bed(filled: &[(u8, usize, bool)]) -> Vec<KeyLoad> {
    let mut loads: Vec<KeyLoad> =
        (0..88).map(|i| KeyLoad { pad: Some(i), count: 0, missing: false, root: false }).collect();
    for &(note, count, missing) in filled {
        let i = usize::from(note - 21);
        loads[i].count = count;
        loads[i].missing = missing;
    }
    loads
}

/// The caret is over the key it names, wherever the band has scrolled to.
#[test]
fn the_caret_sits_over_the_pad_it_names() {
    let t = ActiveTheme::new();
    let loads = bed(&[(60, 2, true)]);
    let colour = track_color(&t, 0);
    for note in [21u8, 60, 61, 84, 108] {
        let cursor = usize::from(note - 21);
        for width in [30usize, 60, 108, 120] {
            let lines = band_lines(&t, true, cursor, &loads, colour, &None, width);
            let caret = cells(&lines[0]).saturating_sub(1);
            let lo = window_lo(21, 108, width, note);
            assert_eq!(caret, column_of(lo, note), "note {note} at width {width}");
            assert!(caret < width, "the caret is off the right edge");
            // The caret shares its line with nothing but the background.
            let pairs = |v: &[phosphor_tui::text::Span]| -> Vec<(String, Style)> {
                v.iter().map(|s| (s.text.clone(), s.style)).collect()
            };
            assert_eq!(pairs(&caret_line(&t, true, lo, note, width)), pairs(&lines[0]));
        }
    }
}

/// The colour of white key `note` on the band, read off the last row, which
/// is white-key body all the way across.
fn colour_at(t: &ActiveTheme, loads: &Vec<KeyLoad>, cursor: usize, colour: Color, note: u8) -> Color {
    let lines = band_lines(t, false, cursor, loads, colour, &None, 200);
    let lo = window_lo(21, 108, 200, note);
    let column = column_of(lo, note);
    let mut seen = 0usize;
    for span in &lines[ROWS] {
        let n = span.text.chars().count();
        if seen + n > column {
            return span.style.bg.expect("a key with no colour");
        }
        seen += n;
    }
    panic!("note {note} is not on the band");
}

/// The band paints what is on the bed: the pad under the caret in amber, a
/// pad with a missing file in red, a filled pad in the track's colour, and
/// an empty one in none of them.
#[test]
fn the_band_paints_what_is_on_the_bed() {
    let t = ActiveTheme::new();
    let colour = track_color(&t, 0);
    let loads = bed(&[(60, 2, true), (64, 1, false)]);
    assert_eq!(colour_at(&t, &loads, 39, colour, 60), amber_bright_val(&t), "the caret pad is not lit");
    // With the caret elsewhere, the same pad shows what is wrong with it.
    assert_eq!(colour_at(&t, &loads, 0, colour, 60), rec_active_val(&t), "a missing file is not red");
    assert_eq!(colour_at(&t, &loads, 0, colour, 64), colour, "a filled pad is not lit");
    assert_eq!(colour_at(&t, &loads, 0, colour, 65), piano_white_bg(&t), "an empty pad is lit");
    assert_eq!(key_paint(&t, 65, &loads[44], 0, colour), KeyPaint::plain(&t, 65));
}

/// A key carries the number of sounds on it up to nine, a `+` past that,
/// and a zone's root wears the anchor instead.
#[test]
fn a_key_wears_its_count() {
    assert_eq!(count_glyph(0), None);
    assert_eq!(count_glyph(3), Some('3'));
    assert_eq!(count_glyph(9), Some('9'));
    assert_eq!(count_glyph(12), Some('+'));
    let t = ActiveTheme::new();
    let colour = track_color(&t, 1);
    let root = KeyLoad { pad: Some(10), count: 4, missing: false, root: true };
    assert_eq!(key_paint(&t, 31, &root, 0, colour).glyph, Some('\u{25C6}'));
    let many = KeyLoad { pad: Some(10), count: 12, missing: false, root: false };
    assert_eq!(key_paint(&t, 31, &many, 0, colour).glyph, Some('+'));
}
