use phosphor_tui::text::Span;
use phosphor_tui::theme::ActiveTheme;
use phosphor_tui::trim::{strip_header, strip_keys, strip_rows, StripHeader, StripRows};

fn line(spans: &[Span]) -> String {
    spans.iter().map(|s| s.text.as_str()).collect()
}

fn header(unit: &str, snap: bool) -> StripHeader {
    StripHeader {
        pad: "C3".to_string(),
        name: "ramp".to_string(),
        seconds: "1.000s".to_string(),
        unit: unit.to_string(),
        snap,
        start: "0.000s".to_string(),
        end: "1.000s".to_string(),
        reverse: false,
    }
}

/// The header says every switch the keys can throw, and follows them.
#[test]
fn the_header_names_the_layer_the_unit_the_snap_and_the_markers() {
    let t = ActiveTheme::new();
    let shown = format!("{}\n{}", line(&strip_header(&t, &header("10ms", true), true, 90)), line(&strip_keys(&t, 90)));
    assert!(shown.contains("C3"), "{shown}");
    assert!(shown.contains("ramp"), "{shown}");
    assert!(shown.contains("unit 10ms"), "{shown}");
    assert!(shown.contains("snap on"), "{shown}");
    assert!(shown.contains("0.000s \u{2192} 1.000s"), "no trim times:\n{shown}");
    assert!(shown.contains("esc back"), "no way out on the screen:\n{shown}");
    let shown = line(&strip_header(&t, &header("bar", false), true, 90));
    assert!(shown.contains("unit bar"), "{shown}");
    assert!(shown.contains("snap off"), "{shown}");
    let mut rev = header("bar", false);
    rev.reverse = true;
    assert!(line(&strip_header(&t, &rev, false, 90)).ends_with(" \u{00b7} rev"));
}

/// Whatever the pane, the strip's rows fit it and its words fit the width.
#[test]
fn the_strip_fits_whatever_it_is_given() {
    let t = ActiveTheme::new();
    for width in [1usize, 4, 20, 57, 120, 400] {
        for height in [1usize, 2, 3, 4, 10, 40] {
            let r = strip_rows(height);
            let rows = usize::from(r.header) + r.wave + usize::from(r.marker) + usize::from(r.keys);
            assert!(rows <= height, "{width}x{height}: {rows} rows");
            assert!(rows > 0, "{width}x{height}: nothing drawn");
            assert!(line(&strip_header(&t, &header("1ms", false), false, width)).chars().count() <= width);
            assert!(line(&strip_keys(&t, width)).chars().count() <= width);
        }
    }
}

/// The waveform takes what the words leave, a dozen rows at most, and the
/// words go one at a time on a short pane.
#[test]
fn the_waveform_takes_what_the_words_leave() {
    assert_eq!(strip_rows(0), StripRows { header: false, wave: 0, marker: false, keys: false });
    assert_eq!(strip_rows(1), StripRows { header: true, wave: 0, marker: false, keys: false });
    assert_eq!(strip_rows(2), StripRows { header: true, wave: 1, marker: false, keys: false });
    assert_eq!(strip_rows(3), StripRows { header: true, wave: 1, marker: true, keys: false });
    assert_eq!(strip_rows(4), StripRows { header: true, wave: 1, marker: true, keys: true });
    assert_eq!(strip_rows(14), StripRows { header: true, wave: 11, marker: true, keys: true });
    assert_eq!(strip_rows(40), StripRows { header: true, wave: 12, marker: true, keys: true });
}
