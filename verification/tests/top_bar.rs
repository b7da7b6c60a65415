use phosphor_tui::text::Span;
use phosphor_tui::theme::{amber, normal, ActiveTheme};
use phosphor_tui::top_bar::{
    bar_of, brand_spans, ruler_heading, ruler_spans, transport_spans, RulerState, TransportBar, TransportElement,
};

fn text(spans: &[Span]) -> String {
    spans.iter().map(|s| s.text.as_str()).collect()
}

fn bar() -> TransportBar {
    TransportBar {
        focused: false,
        element: TransportElement::Bpm,
        editing: false,
        playing: false,
        recording: false,
        metronome: true,
        loop_active: false,
        loop_enabled: false,
    }
}

#[test]
fn the_transport_bar_reads_left_to_right() {
    let t = ActiveTheme::new();
    let spans = transport_spans(&t, &bar(), "120", "1-4");
    assert_eq!(text(&spans), "seq:off  bpm:120  4/4  \u{25CF} rec  loop:off  \u{266A}");
    let mut b = bar();
    b.focused = true;
    b.editing = true;
    b.playing = true;
    b.loop_enabled = true;
    let spans = transport_spans(&t, &b, "121", "1-4");
    assert_eq!(text(&spans), "seq:on  \u{2190}bpm\u{2192}121  4/4  \u{25CF} rec  loop:1-4  \u{266A}");
    b.loop_active = true;
    b.loop_enabled = false;
    let spans = transport_spans(&t, &b, "121", "1-4");
    assert!(text(&spans).contains("loop?[1-4]"));
}

#[test]
fn the_wordmark_and_heading() {
    let t = ActiveTheme::new();
    assert_eq!(text(&brand_spans(&t, true)), "\u{00B9}phosphor");
    assert_eq!(brand_spans(&t, true)[0].style, amber(&t));
    assert_eq!(text(&ruler_heading(&t, false)), "\u{00B2}trk");
}

fn ruler() -> RulerState {
    RulerState {
        playing: false,
        position_ticks: 0,
        ticks_per_bar: 3840,
        loop_start: 1,
        loop_end: 5,
        loop_active: false,
        loop_enabled: false,
    }
}

/// Sixteen bar numbers, each left-aligned in its bar's width, every fourth
/// brighter.
#[test]
fn the_ruler_numbers_the_bars() {
    let t = ActiveTheme::new();
    let spans = ruler_spans(&t, &ruler(), 64);
    assert_eq!(spans.len(), 16);
    assert_eq!(spans[0].text, "1   ");
    assert_eq!(spans[15].text, "16  ");
    assert_eq!(spans[4].style, normal(&t));
    assert!(ruler_spans(&t, &ruler(), 15).is_empty());
}

/// The bar under the playhead is amber, and the loop editor's ends are
/// marked.
#[test]
fn the_ruler_marks_the_playhead_and_the_loop() {
    let t = ActiveTheme::new();
    let mut r = ruler();
    r.playing = true;
    r.position_ticks = 3840 * 2 + 5;
    let spans = ruler_spans(&t, &r, 64);
    assert_eq!(spans[2].style, amber(&t));
    r.playing = false;
    r.loop_active = true;
    let spans = ruler_spans(&t, &r, 64);
    assert!(spans[0].style.bold, "the loop's first bar is not marked");
    assert!(spans[3].style.bold, "the loop's last bar is not marked");
    assert_ne!(spans[0].style, spans[3].style);
    assert!(!spans[1].style.bold);
}

#[test]
fn bars_count_from_one() {
    assert_eq!(bar_of(0, 3840), 1);
    assert_eq!(bar_of(3839, 3840), 1);
    assert_eq!(bar_of(3840 * 7, 3840), 8);
}
