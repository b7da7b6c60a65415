use phosphor_tui::overlays::{overlay_shown, Overlay};
use phosphor_tui::overlays::{
    action_lines, confirm_lines, confirm_modal_area, fx_menu_area, fx_menu_lines, help_lines, input_lines,
    input_modal_area, instrument_lines, instrument_modal_area, space_list_area, space_menu_area, space_tabs, Choice,
    MenuItem, Rect, Topic,
};
use phosphor_tui::text::Span;
use phosphor_tui::theme::ActiveTheme;

fn line(spans: &[Span]) -> String {
    spans.iter().map(|s| s.text.as_str()).collect()
}

fn items(n: usize) -> Vec<MenuItem> {
    (0..n).map(|i| MenuItem { key: format!("k{i}"), label: format!("act {i}") }).collect()
}

/// The actions fill a column top to bottom, then the next one.
#[test]
fn the_actions_fill_columns_top_to_bottom() {
    let t = ActiveTheme::new();
    let lines = action_lines(&t, &items(7), 4, 3);
    assert_eq!(lines.len(), 3);
    let rows: Vec<String> = lines.iter().map(|l| line(l)).collect();
    assert!(rows[0].starts_with("  k0     act 0       "), "{rows:?}");
    assert!(rows[0].contains("  k3     act 3"), "{rows:?}");
    assert!(rows[0].contains("  k6     act 6"), "{rows:?}");
    assert!(rows[1].contains("\u{25B6} k4     act 4"), "the cursor is not on the fifth action: {rows:?}");
    assert!(!rows[1].contains("k7"), "{rows:?}");
    assert_eq!(rows[2].chars().count(), 60, "two columns of thirty");
    assert_eq!(rows[0].chars().count(), 90, "three columns of thirty");
    let few = action_lines(&t, &items(2), 0, 5);
    assert_eq!(few.len(), 2, "a row with no action on it is not drawn");
    assert!(action_lines(&t, &items(3), 0, 0).is_empty());
}

/// The menu sits along the bottom of the screen and never reaches the last
/// row.
#[test]
fn the_space_menu_sits_above_the_last_row() {
    assert_eq!(space_menu_area(80, 40), Rect { x: 0, y: 29, w: 80, h: 10 });
    assert_eq!(space_menu_area(80, 8), Rect { x: 0, y: 1, w: 80, h: 6 });
    assert_eq!(space_menu_area(80, 1), Rect { x: 0, y: 0, w: 80, h: 0 });
    assert_eq!(space_list_area(80, 40), Rect { x: 1, y: 31, w: 78, h: 7 });
    let tabs = line(&space_tabs(&ActiveTheme::new(), true));
    assert_eq!(tabs, " [actions]  [help]   tab\u{2192}switch  esc\u{2192}close  +/-\u{2192}bpm");
}

/// The help list marks the topic under the cursor.
#[test]
fn the_help_list_marks_its_cursor() {
    let t = ActiveTheme::new();
    let topics = vec![
        Topic { title: "tracks".to_string(), desc: "what a track is".to_string() },
        Topic { title: "clips".to_string(), desc: "what a clip is".to_string() },
    ];
    let lines = help_lines(&t, &topics, 1);
    assert_eq!(line(&lines[0]), "  tracks        what a track is");
    assert_eq!(line(&lines[1]), "\u{25B6} clips         what a clip is");
}

/// The instrument menu: three lines an instrument, centred, no taller than
/// the screen allows.
#[test]
fn the_instrument_menu_is_three_lines_an_instrument() {
    let t = ActiveTheme::new();
    let choices = vec![
        Choice { label: "DX7".to_string(), desc: "six operators".to_string() },
        Choice { label: "Juno".to_string(), desc: "one oscillator".to_string() },
    ];
    let lines = instrument_lines(&t, &choices, 0);
    assert_eq!(lines.len(), 6);
    assert_eq!(line(&lines[0]), "\u{25B6} DX7");
    assert_eq!(line(&lines[1]), "    six operators");
    assert!(lines[2].is_empty());
    assert_eq!(line(&lines[3]), "  Juno");
    let (outer, inner) = instrument_modal_area(100, 40, 2);
    assert_eq!(outer, Rect { x: 30, y: 15, w: 40, h: 9 });
    assert_eq!(inner, Rect { x: 32, y: 17, w: 36, h: 6 });
    let (short, _) = instrument_modal_area(100, 8, 10);
    assert_eq!(short.h, 6);
}

/// The confirm box is six wider than its message, thirty at least.
#[test]
fn the_confirm_box_fits_its_message() {
    let (outer, inner) = confirm_modal_area(100, 20, 10);
    assert_eq!(outer, Rect { x: 35, y: 8, w: 30, h: 4 });
    assert_eq!(inner, Rect { x: 37, y: 9, w: 26, h: 2 });
    let (wide, _) = confirm_modal_area(100, 20, 60);
    assert_eq!(wide.w, 66);
    let (held, _) = confirm_modal_area(50, 20, 60);
    assert_eq!(held.w, 46);
    let lines = confirm_lines(&ActiveTheme::new(), "delete the track?");
    assert_eq!(line(&lines[0]), "delete the track?");
}

/// The prompt draws the cursor on the character under it, or as a block
/// past the end.
#[test]
fn the_prompt_draws_its_cursor() {
    let t = ActiveTheme::new();
    let lines = input_lines(&t, true, "song.phos", 4);
    let parts: Vec<&str> = lines[0].iter().map(|s| s.text.as_str()).collect();
    assert_eq!(parts, vec!["filename: ", "song", ".", "phos"]);
    let lines = input_lines(&t, false, "a", 9);
    let parts: Vec<&str> = lines[0].iter().map(|s| s.text.as_str()).collect();
    assert_eq!(parts, vec!["path: ", "a", "\u{2588}", ""]);
    assert!(lines[1].is_empty());
    assert_eq!(line(&lines[2]), "  enter confirm  esc cancel");
    assert_eq!(input_modal_area(100, 20).0, Rect { x: 25, y: 7, w: 50, h: 5 });
    assert_eq!(input_modal_area(20, 20).1, Rect { x: 4, y: 8, w: 12, h: 3 });
}

/// The effect menu: the caret, an empty check column, and the name.
#[test]
fn the_effect_menu_lists_the_effects() {
    let t = ActiveTheme::new();
    let lines = fx_menu_lines(&t, &vec!["eq".to_string(), "delay".to_string()], 1);
    assert_eq!(line(&lines[0]), "    eq");
    assert_eq!(line(&lines[1]), "\u{25B6}   delay");
    assert_eq!(fx_menu_area(80, 24).1, Rect { x: 27, y: 8, w: 26, h: 8 });
}

/// A question being asked is drawn over everything else.
#[test]
fn the_confirm_box_comes_first() {
    assert_eq!(overlay_shown(true, true, true, true, true), Some(Overlay::Confirm));
    assert_eq!(overlay_shown(false, true, true, false, true), Some(Overlay::Input));
    assert_eq!(overlay_shown(false, false, false, true, true), Some(Overlay::Space));
    assert_eq!(overlay_shown(false, false, false, false, true), Some(Overlay::FxMenu));
    assert_eq!(overlay_shown(false, false, false, false, false), None);
}
