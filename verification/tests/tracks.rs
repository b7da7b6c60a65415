use phosphor_tui::tracks::{track_rows, RowPlan, TrackFlags};
use phosphor_tui::text::Span;
use phosphor_tui::theme::{track_color, ActiveTheme};
use phosphor_tui::tracks::{header_rows, vu_bar, HeaderState, PatternMark, TrackElement, HEADER_W};

fn text(spans: &[Span]) -> String {
    spans.iter().map(|s| s.text.as_str()).collect()
}

fn state(t: &ActiveTheme) -> HeaderState {
    HeaderState {
        colour: track_color(t, 1),
        index: 2,
        cursor: true,
        selected: false,
        dimmed: false,
        special: false,
        element: TrackElement::Fx,
        element_locked: false,
        has_fx: true,
        armed: true,
        muted: false,
        soloed: true,
        vu_filled: 2,
        pattern: PatternMark::Idle,
    }
}

/// Three rows of twelve: letter, fx, fader and arm; mute, solo and meter;
/// the divider.
#[test]
fn a_header_reads_like_a_header() {
    let t = ActiveTheme::new();
    let (top, middle, bottom) = header_rows(&t, &state(&t), " -2");
    assert_eq!(text(&top), "\u{2590}C fx  -2 \u{25CF}");
    assert_eq!(text(&middle), "\u{2590}  m s \u{2588}\u{2588}\u{2591}");
    assert_eq!(text(&bottom).chars().count(), HEADER_W);
    assert!(middle[4].style.bold, "a soloed track's s is not lit");
}

/// A send or the master has no effects, fader or arm on its header.
#[test]
fn a_send_has_no_buttons() {
    let t = ActiveTheme::new();
    let mut s = state(&t);
    s.special = true;
    let (top, _, _) = header_rows(&t, &s, " -2");
    assert_eq!(text(&top), "\u{2590}C ");
}

/// A running pattern is marked on the row, loudly when clips double it.
#[test]
fn a_doubled_track_is_marked_on_its_row() {
    let t = ActiveTheme::new();
    let mut s = state(&t);
    s.pattern = PatternMark::Doubled;
    let (_, middle, _) = header_rows(&t, &s, "  0");
    assert!(text(&middle).ends_with(" \u{203C}"));
    assert!(middle.last().unwrap().style.bold);
    s.pattern = PatternMark::Playing;
    let (_, middle, _) = header_rows(&t, &s, "  0");
    assert!(text(&middle).ends_with(" \u{25B6}"));
}

#[test]
fn the_meter_is_three_cells() {
    assert_eq!(vu_bar(0), "\u{2591}\u{2591}\u{2591}");
    assert_eq!(vu_bar(3), "\u{2588}\u{2588}\u{2588}");
    assert_eq!(vu_bar(1).chars().count(), 3);
}

/// The rows fit the pane, and a row is dim when its track is muted or a solo
/// elsewhere silences it.
#[test]
fn the_track_rows_fit_and_dim_what_cannot_be_heard() {
    let tracks = vec![
        TrackFlags { muted: false, soloed: false },
        TrackFlags { muted: false, soloed: true },
        TrackFlags { muted: true, soloed: false },
        TrackFlags { muted: false, soloed: false },
    ];
    let rows = track_rows(&tracks, 1, 3, 8, Some(2), true);
    assert_eq!(
        rows,
        vec![
            RowPlan { index: 1, y: 0, cursor: false, selected: false, dimmed: false },
            RowPlan { index: 2, y: 3, cursor: true, selected: true, dimmed: true },
        ]
    );
    let quiet = vec![TrackFlags { muted: false, soloed: false }; 2];
    let rows = track_rows(&quiet, 0, 2, 30, None, false);
    assert_eq!(rows.len(), 2);
    assert!(rows.iter().all(|r| !r.dimmed));
}
