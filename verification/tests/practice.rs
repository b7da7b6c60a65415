use phosphor_tui::practice::{
    browse_lines, drill_keys, keyboard_band, keyboard_range, lane_focus, lane_window, run_header, run_keys, streak_dots,
    target_lane, DrillChoice, DrillKeys, DrillTarget, FamilyRow, LaneTarget, Mark, RunHeader, Wanted,
};
use phosphor_tui::style::Color;
use phosphor_tui::text::Span;
use phosphor_tui::theme::{amber_bright_val, piano_white_bg, rec_active_val, ActiveTheme};

fn text(spans: &[Span]) -> String {
    spans.iter().map(|s| s.text.as_str()).collect()
}

/// The keyboard spans the drill's notes padded to whole octaves, within the
/// piano's range.
#[test]
fn the_keyboard_spans_the_drill() {
    assert_eq!(keyboard_range(&vec![60, 64, 67]), (48, 72));
    assert_eq!(keyboard_range(&vec![]), (36, 84));
    assert_eq!(keyboard_range(&vec![22, 107]), (21, 108));
}

#[test]
fn the_lane_and_the_streak() {
    assert_eq!(lane_window(0, 40), (0, 16));
    assert_eq!(lane_window(10, 12), (7, 12));
    assert_eq!(streak_dots(2), "\u{25cf}\u{25cf}\u{25cb}");
    assert_eq!(streak_dots(9), "\u{25cf}\u{25cf}\u{25cf}");
    assert_eq!(lane_focus(true, 9, &vec![true; 4]), 3);
    assert_eq!(lane_focus(false, 0, &vec![false, false, true, true]), 2);
    assert_eq!(lane_focus(false, 0, &vec![false, false]), 1);
}

/// The keys to play carry their finger; a key down that was asked for is
/// green, one that was not is red.
#[test]
fn the_keyboard_shows_what_to_play_and_what_was_played() {
    let t = ActiveTheme::new();
    let keys = DrillKeys {
        wanted: vec![Wanted { note: 60, finger: 1, left: false }, Wanted { note: 61, finger: 2, left: true }],
        down: vec![62, 64],
        hit: vec![64],
    };
    let rows = keyboard_band(&t, 60, 71, 40, &keys);
    assert_eq!(rows.len(), 5);
    // Seven white keys of two cells beside the margin.
    assert_eq!(text(&rows[4]).chars().count(), 2 + 7 * 2);
    assert!(text(&rows[4]).starts_with("  1 "), "the finger is not on the key");
    assert_eq!(rows[4][1].style.bg, Some(amber_bright_val(&t)));
    assert_eq!(rows[1][2].text, "2", "the black key's finger is on its middle row");
    assert_eq!(rows[1][2].style.bg, Some(Color::Rgb(70, 130, 200)), "the left hand is blue");
    assert_eq!(rows[3][2].style.bg, Some(rec_active_val(&t)), "a key nobody asked for is not red");
    assert_eq!(rows[3][3].style.bg, Some(Color::Rgb(60, 160, 80)), "a recent hit is not green");
    assert_eq!(rows[3][4].style.bg, Some(piano_white_bg(&t)));
}

/// The keys wanted now are the pending targets on the focus target's tick;
/// a key down is forgiven when a target on its note was hit.
#[test]
fn the_keys_wanted_are_the_pending_ones_on_the_focus_tick() {
    let green = Color::Rgb(60, 160, 80);
    let at = |note, finger, left, tick, mark| DrillTarget { note, finger, left, tick, mark };
    let targets = vec![
        at(60, 1, false, 0, Mark::Hit(green)),
        at(64, 3, false, 480, Mark::Pending),
        at(48, 5, true, 480, Mark::Pending),
        at(67, 5, false, 480, Mark::Hit(green)),
        at(72, 1, false, 960, Mark::Pending),
    ];
    let keys = drill_keys(&targets, 1, vec![64, 67]);
    assert_eq!(
        keys.wanted,
        vec![Wanted { note: 64, finger: 3, left: false }, Wanted { note: 48, finger: 5, left: true }]
    );
    assert_eq!(keys.down, vec![64, 67]);
    assert_eq!(keys.hit, vec![60, 67]);
    // With the focus past the last target, the wanted tick is zero.
    let keys = drill_keys(&targets, 9, vec![]);
    assert!(keys.wanted.is_empty());
}

/// A range that comes out upside down draws the margins and no keys, as
/// a drill above the bed does.
#[test]
fn an_empty_range_draws_no_keys() {
    let t = ActiveTheme::new();
    let (lo, hi) = keyboard_range(&vec![122, 124]);
    assert!(lo > hi);
    let keys = DrillKeys { wanted: vec![], down: vec![], hit: vec![] };
    let rows = keyboard_band(&t, lo, hi, 80, &keys);
    assert_eq!(rows.len(), 5);
    for row in &rows {
        assert_eq!(text(row), "  ");
    }
}

fn target(name: &str, finger: u8, left: bool, mark: Mark) -> LaneTarget {
    LaneTarget { name: name.to_string(), finger, left, mark }
}

/// The lane writes the fingers over the notes, each centred in five
/// columns, from three behind the one in focus.
#[test]
fn the_lane_writes_fingers_over_notes() {
    let t = ActiveTheme::new();
    let targets: Vec<LaneTarget> = (0..20u8)
        .map(|i| target(&format!("N{i}"), i % 6, i % 2 == 0, if i < 5 { Mark::Hit(Color::Rgb(120, 220, 120)) } else { Mark::Pending }))
        .collect();
    let (fingers, names) = target_lane(&t, &targets, 5);
    assert_eq!(fingers.len(), 17, "a margin and sixteen targets");
    assert_eq!(text(&names[..3]), "   N2   N3  ");
    assert_eq!(fingers[1].text, "  2  ");
    assert_eq!(fingers[5].text, "  \u{00b7}  ", "no finger is a dot");
    assert!(names[4].style.underlined && names[4].style.bold, "the focus is not marked");
    assert_eq!(names[1].style.fg, Some(Color::Rgb(120, 220, 120)), "a hit keeps its verdict colour");
    let few: Vec<LaneTarget> = targets[..2].iter().map(|x| target(&x.name, x.finger, x.left, x.mark)).collect();
    let (short, _) = target_lane(&t, &few, 1);
    assert_eq!(short.len(), 3);
}

/// The drill's header says the exercise, the tempo, the mode, the click,
/// the repetition and the streak, and the coaching line under it.
#[test]
fn the_run_header_says_where_the_drill_stands() {
    let t = ActiveTheme::new();
    let h = RunHeader {
        title: "C major scale".to_string(),
        bpm: 80,
        mode: "wait".to_string(),
        click: "on".to_string(),
        rep: 3,
        streak: 2,
        coach: "keep the thumb under".to_string(),
    };
    let lines = run_header(&t, &h);
    assert_eq!(
        text(&lines[0]),
        "  C major scale \u{00b7} \u{2669}=80 \u{00b7} wait \u{00b7} click on \u{00b7} rep 3 \u{00b7} \u{25cf}\u{25cf}\u{25cb}"
    );
    assert_eq!(text(&lines[1]), "  keep the thumb under");
    assert!(text(&run_keys(&t)).contains("[ ] tempo"));
}

/// The drill list marks the family under the cursor, shows the best tempo
/// or a dash, and the settings the drill starts with.
#[test]
fn the_drill_list_reads_like_a_menu() {
    let t = ActiveTheme::new();
    let families = vec![
        FamilyRow { level: 1, title: "scales".to_string(), best: 96 },
        FamilyRow { level: 2, title: "arpeggios".to_string(), best: 0 },
    ];
    let choice = DrillChoice {
        key: Some("C".to_string()),
        hands: None,
        bpm: 72,
        mode: "flow".to_string(),
        click: "off".to_string(),
        coach: "even notes".to_string(),
    };
    let lines = browse_lines(&t, &families, 1, &choice, 40);
    let shown: Vec<String> = lines.iter().map(|l| text(l)).collect();
    assert_eq!(shown.len(), 10);
    assert_eq!(shown[0], "  fingers \u{00b7} technique drills, judged from your playing");
    assert_eq!(shown[2], format!("   L1 {:<28}{:>8}", "scales", "\u{2669}=96"));
    assert_eq!(shown[3], format!(" \u{25B6} L2 {:<28}{:>8}", "arpeggios", "\u{2014}"));
    assert_eq!(shown[5], "   key C \u{00b7} \u{2669}=72 \u{00b7} flow \u{00b7} click off");
    assert_eq!(shown[6], "   even notes");
    assert_eq!(browse_lines(&t, &families, 0, &choice, 3).len(), 3);
}
