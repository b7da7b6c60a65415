use phosphor_tui::kit::{
    band_lines, list_start, RuleInput, one_column, pad_list, pad_row, pads_body, pads_frame, shows_band, source_banner, zone_list, zone_row,
    Capture, PadLine, PadsBody, PadsFrame, SourceBanner, ZoneLine,
};
use phosphor_tui::knobs::Knob;
use phosphor_tui::pad_panel::{panel_lines, sound_list, PanelInput, SoundKind, SoundLine};
use phosphor_tui::pads::KeyLoad;
use phosphor_tui::style::Color;
use phosphor_tui::text::Span;
use phosphor_tui::zones::ZoneSpan;
use phosphor_tui::theme::ActiveTheme;

fn line(spans: &[Span]) -> String {
    spans.iter().map(|s| s.text.as_str()).collect()
}

fn text(lines: &[Vec<Span>]) -> String {
    lines.iter().map(|l| line(l)).collect::<Vec<_>>().join("\n")
}

/// The kit the sampler's own tests use: C3 with two sounds on it, the second
/// of which has lost its file.
fn kick() -> PadLine {
    PadLine {
        label: "C3".to_string(),
        what: "2 layers".to_string(),
        count: 2,
        trig: "one-shot".to_string(),
        poly: 4,
        choke: 0,
        missing: true,
        source: false,
    }
}

fn pad(label: &str) -> PadLine {
    PadLine {
        label: label.to_string(),
        what: "kick".to_string(),
        count: 1,
        trig: "one-shot".to_string(),
        poly: 4,
        choke: 1,
        missing: false,
        source: false,
    }
}

/// An empty kit says what to do about it rather than showing a blank column.
#[test]
fn an_empty_kit_tells_the_player_what_to_press() {
    let t = ActiveTheme::new();
    let list = text(&pad_list(&t, false, &vec![], None, &None, 38, 10));
    assert!(list.contains("empty"), "{list}");
    assert!(list.contains("play a key"), "{list}");
}

/// A pad with sounds on it names them, counts them, says how it triggers,
/// and says out loud that one of them has lost its file.
#[test]
fn a_filled_pad_reads_like_a_pad() {
    let t = ActiveTheme::new();
    let list = text(&pad_list(&t, false, &vec![kick()], Some(0), &None, 38, 10));
    assert!(list.contains("C3"), "{list}");
    assert!(list.contains("2 layers"), "{list}");
    assert!(list.contains("one-shot"), "{list}");
    assert!(list.contains('!'), "a missing file is not marked:\n{list}");
}

/// The kit says what it is costing when there is anything to say, and a
/// narrow pane drops it rather than running off its own edge.
#[test]
fn the_list_head_says_how_much_audio_is_held() {
    let t = ActiveTheme::new();
    let list = text(&pad_list(&t, false, &vec![], None, &None, 60, 10));
    assert!(!list.contains("held"), "an empty kit claimed to hold something:\n{list}");

    let held = Some(" \u{00b7} 173 kB held".to_string());
    let list = text(&pad_list(&t, false, &vec![kick()], Some(0), &held, 60, 10));
    assert!(list.contains("173 kB held"), "the memory line is wrong:\n{list}");

    let held = Some(" \u{00b7} 11.4 MB held".to_string());
    let narrow = text(&pad_list(&t, false, &vec![kick()], Some(0), &held, 24, 10));
    assert!(narrow.lines().all(|l| l.chars().count() <= 24), "the head overran:\n{narrow}");
}

/// A pad that remembers an instrument wears a mark, and the head says what
/// the mark means — but only when something is wearing one.
#[test]
fn a_pad_carrying_a_source_is_marked_and_the_mark_is_explained() {
    let t = ActiveTheme::new();
    let held = Some(" \u{00b7} 173 kB held".to_string());
    let plain = text(&pad_list(&t, false, &vec![kick()], Some(0), &held, 38, 10));
    assert!(!plain.contains('\u{25CE}'), "an unrecorded kit wears the mark:\n{plain}");

    let mut marked = kick();
    marked.source = true;
    let shown = text(&pad_list(&t, false, &vec![marked], Some(0), &held, 60, 10));
    let head = shown.lines().next().unwrap();
    assert!(head.contains("source"), "the mark is not explained:\n{shown}");
    let row = shown.lines().find(|l| l.contains("C3")).expect("no C3 row");
    assert!(row.contains('\u{25CE}'), "the pad is not marked: {row}");

    let mut marked = kick();
    marked.source = true;
    let narrow = text(&pad_list(&t, false, &vec![marked], Some(0), &held, 38, 10));
    let head = narrow.lines().next().unwrap();
    assert!(head.contains("kB held"), "the legend cost the memory line: {head}");
    assert!(!head.contains("\u{25CE} source"), "the head overran its own width: {head}");
}

/// The mark is the first column a narrow list gives up.
#[test]
fn the_source_mark_goes_before_the_missing_warning() {
    let t = ActiveTheme::new();
    let mut marked = kick();
    marked.source = true;
    let pads = vec![marked];
    let mut dropped = false;
    for width in 1..60usize {
        let shown = text(&pad_list(&t, false, &pads, Some(0), &None, width, 10));
        for l in shown.lines() {
            assert!(l.chars().count() <= width, "a {width}-column list overran: {l}");
        }
        let Some(row) = shown.lines().find(|l| l.contains("C3")) else { continue };
        if !row.contains('\u{25CE}') {
            dropped = true;
            continue;
        }
        assert!(row.contains('!'), "the mark outlived the warning at {width}: {row}");
    }
    assert!(dropped, "the mark never dropped, so nothing was under pressure");
}

/// A kit longer than the list scrolls to the pad under the caret.
#[test]
fn a_long_kit_scrolls_to_the_pad_being_edited() {
    let t = ActiveTheme::new();
    let pads: Vec<PadLine> = (0..40).map(|i| pad(&format!("P{i}"))).collect();
    let list = text(&pad_list(&t, true, &pads, Some(39), &None, 38, 6));
    assert!(list.contains("P39"), "the pad under the caret is off the list:\n{list}");
    assert_eq!(list.lines().count(), 6, "the list outgrew its space:\n{list}");
}

/// The window starts as early as it can and keeps the caret in it.
#[test]
fn the_list_window_holds_the_caret() {
    assert_eq!(list_start(0, 40, 5), 0);
    assert_eq!(list_start(39, 40, 5), 35);
    assert_eq!(list_start(10, 40, 5), 6);
    assert_eq!(list_start(3, 4, 10), 0);
    for here in 0..40usize {
        for rows in 1..12usize {
            let s = list_start(here, 40, rows);
            assert!(s <= here && here < s + rows, "caret {here} lost in {rows} rows");
        }
    }
}

/// A pad row reads the caret, the name, the count, the trigger, the poly
/// and the choke group, in that order.
#[test]
fn a_pad_row_reads_in_order() {
    let t = ActiveTheme::new();
    let row = line(&pad_row(&t, &pad("C3"), true, true, 60));
    assert_eq!(row, " \u{25B8} C3  kick           1 one-shot p4 c1");
    let bare = line(&pad_row(&t, &pad("C3"), false, false, 7));
    assert_eq!(bare, "   C3  ");
}

/// The pane's rows go to the band, the banner and the body, and nowhere
/// else.
#[test]
fn every_row_of_the_pads_pane_is_spent_once() {
    assert!(shows_band(24, 12));
    assert!(!shows_band(23, 12));
    assert!(!shows_band(80, 11));
    assert_eq!(pads_frame(80, 30, 6, true), PadsFrame { band_rows: 6, banner: true, body_h: 23 });
    assert_eq!(pads_frame(80, 10, 6, false), PadsFrame { band_rows: 0, banner: false, body_h: 10 });
    assert_eq!(pads_frame(80, 12, 20, true), PadsFrame { band_rows: 12, banner: false, body_h: 0 });
    assert_eq!(pads_frame(0, 12, 6, true), PadsFrame { band_rows: 0, banner: false, body_h: 0 });
    assert_eq!(pads_body(78, 20), PadsBody::TwoColumns { list_w: 38, panel_w: 40 });
    assert_eq!(pads_body(77, 20), PadsBody::OneColumn { panel_h: 18 });
    assert_eq!(pads_body(77, 2), PadsBody::OneColumn { panel_h: 1 });
    assert_eq!(one_column(20, 18), (18, 2));
    assert_eq!(one_column(20, 19), (19, 0));
    assert_eq!(one_column(5, 9), (5, 0));
}

/// The banner says what `r` will land and where the take stands.
#[test]
fn the_banner_says_what_the_keys_are_doing() {
    let t = ActiveTheme::new();
    let mut b = SourceBanner {
        instrument: "DX7".to_string(),
        pad: "C3".to_string(),
        take: "audio".to_string(),
        capture: Capture::Idle,
    };
    let idle = line(&source_banner(&t, &b, 200));
    assert!(idle.starts_with(" \u{25B8} source \u{00b7} DX7 \u{00b7} pad C3 \u{00b7} take: audio"), "{idle}");
    b.capture = Capture::Armed;
    let armed = line(&source_banner(&t, &b, 200));
    assert_eq!(armed, " \u{25CF} armed \u{00b7} pad C3 \u{00b7} take: audio \u{00b7} it opens at the next bar line");
    b.capture = Capture::Recording { notes: 1, whole_bars: true };
    let one = line(&source_banner(&t, &b, 200));
    assert!(one.contains("1 note \u{00b7} whole bars"), "{one}");
    b.capture = Capture::Recording { notes: 3, whole_bars: false };
    let three = line(&source_banner(&t, &b, 30));
    assert!(three.chars().count() <= 30, "{three}");
    assert!(three.ends_with('\u{2026}'), "{three}");
}

fn zone(span: &str) -> ZoneLine {
    ZoneLine {
        span: span.to_string(),
        sound: "piano".to_string(),
        layers: 1,
        root: "C3".to_string(),
        keys: 24,
        missing: false,
    }
}

/// The list says what each zone is: its span, its sound, its root and how
/// many keys it holds.
#[test]
fn the_zone_list_reads_like_a_zone() {
    let t = ActiveTheme::new();
    let list = text(&zone_list(&t, false, &vec![zone("C2-B3")], Some(0), 46, 10));
    assert!(list.contains("zones"), "{list}");
    assert!(list.contains("C2-B3"), "{list}");
    assert!(list.contains("piano"), "{list}");
    assert!(list.contains("root C3"), "{list}");
    assert!(list.contains("24 keys"), "{list}");
    let row = line(&zone_row(&t, &zone("C2-B3"), false, false, 46));
    assert_eq!(row, "   C2-B3   piano          1 root C3  24 keys");
}

/// An empty bed says which keys make a zone rather than showing a blank
/// column.
#[test]
fn an_empty_bed_tells_the_player_what_to_press() {
    let t = ActiveTheme::new();
    let list = text(&zone_list(&t, false, &vec![], None, 46, 10));
    assert!(list.contains("none yet"), "{list}");
    assert!(list.contains("w covers the whole bed"), "{list}");
    assert!(list.contains("s splits"), "{list}");
}

fn loads() -> Vec<KeyLoad> {
    (0..88usize)
        .map(|i| KeyLoad { pad: Some(i), count: if i == 39 { 2 } else { 0 }, missing: i == 39, root: false })
        .collect()
}

fn cells(spans: &[Span]) -> usize {
    spans.iter().map(|s| s.text.chars().count()).sum()
}

/// No row of any section runs past the width it was given.
#[test]
fn nothing_runs_past_the_right_edge() {
    let t = ActiveTheme::new();
    let colour = Color::Rgb(200, 100, 50);
    let zoned = Some(RuleInput { zones: vec![ZoneSpan { lo: 27, hi: 50, root: 60 }], here: Some(0) });
    for rule in [None, zoned] {
        for width in [1usize, 8, 20, 29, 38, 57, 95, 200] {
            for line in band_lines(&t, true, 39, &loads(), colour, &rule, width) {
                assert!(cells(&line) <= width.max(1), "band row in {width} columns");
            }
            for line in pad_list(&t, true, &vec![kick()], Some(0), &None, width, 10) {
                assert!(cells(&line) <= width, "a {}-cell list row in {width} columns", cells(&line));
            }
            for line in zone_list(&t, true, &vec![zone("C2-B3")], Some(0), width, 10) {
                assert!(cells(&line) <= width, "a {}-cell zone row in {width} columns", cells(&line));
            }
            let knobs = vec![
                Knob::new("trig", "one-shot".to_string(), 0),
                Knob::new("release", "10.00 s".to_string(), 1),
            ];
            let input = PanelInput {
                title: "pad C3".to_string(),
                count: 1,
                pad_label: "C3".to_string(),
                pad_knobs: Some(knobs),
                layer: None,
                knob: 0,
                locked: false,
                focused: true,
                colour,
            };
            let sound = SoundLine {
                name: "kick".to_string(),
                seconds: "1.00s".to_string(),
                level: "0.0 dB".to_string(),
                muted: false,
                kind: SoundKind::Layer { missing: true },
            };
            let sounds = sound_list(&t, &vec![sound], 0, true, false, 1, 0, true, width);
            for line in panel_lines(&t, &input, sounds, width, 20) {
                assert!(cells(&line) <= width.max(29), "a {}-cell panel row in {width} columns", cells(&line));
            }
        }
    }
}

/// Keys mode costs one row more than pads mode and no more than that, and
/// the row it costs is the rule.
#[test]
fn the_rule_is_the_only_row_keys_mode_adds() {
    let t = ActiveTheme::new();
    let colour = Color::Rgb(200, 100, 50);
    let pads = band_lines(&t, false, 39, &loads(), colour, &None, 120).len();
    let zoned = Some(RuleInput { zones: vec![ZoneSpan { lo: 27, hi: 50, root: 60 }], here: None });
    let keys = band_lines(&t, false, 39, &loads(), colour, &zoned, 120);
    assert_eq!(keys.len(), pads + 1);
    let rule: String = keys.last().unwrap().iter().map(|s| s.text.as_str()).collect();
    assert!(rule.contains('\u{253C}'), "the last row is not the rule: {rule}");
}
