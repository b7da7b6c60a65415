use phosphor_tui::eq::{narrow_strip, wide_strip, BandCells, EqCursor};
use phosphor_tui::text::Span;
use phosphor_tui::theme::ActiveTheme;

fn line(spans: &[Span]) -> String {
    spans.iter().map(|s| s.text.as_str()).collect()
}

fn cells() -> Vec<BandCells> {
    (0..8)
        .map(|b| BandCells {
            text: vec![
                "bell".to_string(),
                format!("{}k", b + 1),
                "+0.0".to_string(),
                "0.71".to_string(),
                "12".to_string(),
                "on".to_string(),
            ],
            live: vec![true, true, true, true, b == 0, true],
        })
        .collect()
}

/// The narrow strip drops the slope, then the Q, then the frequency, and
/// never the gain.
#[test]
fn the_narrow_strip_drops_columns_in_order() {
    let t = ActiveTheme::new();
    let v = EqCursor { band: 0, control: 0, locked: false };
    let head = |w: usize| line(&narrow_strip(&t, &cells(), "+0.0", v, w, 20, true)[0]);
    assert_eq!(head(46), "    type   freq   gain   q      slope  on     ");
    assert_eq!(head(45), "    type   freq   gain   q      on     ");
    assert_eq!(head(38), "    type   freq   gain   on     ");
    assert_eq!(head(31), "    type   gain   on     ");
    assert_eq!(head(10), "    type   gain   on     ");
}

/// The band under the cursor is always on the screen, and the trim has a row
/// of its own after the eighth band.
#[test]
fn the_narrow_strip_scrolls_to_the_band() {
    let t = ActiveTheme::new();
    for band in 0..=8usize {
        for height in [1usize, 3, 5, 12] {
            let v = EqCursor { band, control: 2, locked: false };
            let lines = narrow_strip(&t, &cells(), "+1.5", v, 60, height, true);
            let shown: Vec<String> = lines.iter().map(|l| line(l)).collect();
            let want = if band == 8 { "trim".to_string() } else { format!("\u{25B8}{}", band + 1) };
            assert!(shown.iter().any(|l| l.starts_with(&want)), "band {band} off a {height}-row strip: {shown:?}");
        }
    }
    let v = EqCursor { band: 8, control: 0, locked: false };
    let lines = narrow_strip(&t, &cells(), "+1.5", v, 60, 20, true);
    assert_eq!(line(lines.last().unwrap()), "trim+1.5");
    assert_eq!(lines.len(), 10);
}

/// The wide strip: a column a band, a row a control, the trim on the gain
/// row.
#[test]
fn the_wide_strip_puts_the_trim_on_the_gain_row() {
    let t = ActiveTheme::new();
    let v = EqCursor { band: 3, control: 1, locked: true };
    let lines = wide_strip(&t, &cells(), "-2.0", v, 100, true);
    assert_eq!(lines.len(), 7);
    assert_eq!(line(&lines[0]), "band  1        2        3        4        5        6        7        8        trim");
    assert!(line(&lines[3]).starts_with("gain  +0.0"), "{}", line(&lines[3]));
    assert!(line(&lines[3]).ends_with("-2.0"));
    assert!(!line(&lines[2]).ends_with("-2.0"));
    let narrow = wide_strip(&t, &cells(), "-2.0", v, 20, false);
    assert!(line(&narrow[0]).starts_with("band  1    2    "), "{}", line(&narrow[0]));
}
