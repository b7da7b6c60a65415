use phosphor_tui::style::{Color, Style};
use phosphor_tui::theme::{
    bg, btn_style, current_theme, dim_color, load_preference, next_theme, playhead_bg, preference_text, set_theme,
    take_preference,
    tc_b, tc_g, tc_r, theme_name, track_color, transport_hi_bg, ActiveTheme, THEME_COUNT,
};

/// A saved preference reads back as the theme it was saved from, whichever
/// theme is active when it is read.
#[test]
fn a_saved_theme_loads_back() {
    for index in 0..THEME_COUNT {
        let mut saved = ActiveTheme::new();
        set_theme(&mut saved, index);
        let text = preference_text(&saved);
        let mut other = ActiveTheme::new();
        set_theme(&mut other, (index + 4) % THEME_COUNT);
        load_preference(&mut other, &text);
        assert_eq!(current_theme(&other), index);
        assert_eq!(theme_name(&other), theme_name(&saved));
    }
}

/// The configuration file is JSON with the theme's number under `theme`.
#[test]
fn the_preference_is_read_out_of_the_json() {
    let mut t = ActiveTheme::new();
    load_preference(&mut t, "{\"theme\": 3}");
    assert_eq!(current_theme(&t), 3);
    assert_eq!(theme_name(&t), "Midnight");
    // A number past the last theme counts round the list.
    load_preference(&mut t, "{\"theme\": 12, \"other\": true}");
    assert_eq!(current_theme(&t), 3);
    // Text that names no theme leaves the theme alone.
    set_theme(&mut t, 7);
    for text in ["", "not json", "{}", "{\"theme\": \"gruvbox\"}", "{\"theme\": -1}", "[3]"] {
        load_preference(&mut t, text);
        assert_eq!(current_theme(&t), 7, "{text:?} changed the theme");
    }
    let text = preference_text(&t);
    assert!(text.contains("\"theme\""), "{text}");
    assert!(text.contains('7'), "{text}");
}

/// A field that was read takes effect counted round the list; none leaves
/// the theme alone.
#[test]
fn a_read_field_takes_effect() {
    let mut t = ActiveTheme::new();
    take_preference(&mut t, Some(5));
    assert_eq!(current_theme(&t), 5);
    take_preference(&mut t, Some(11));
    assert_eq!(current_theme(&t), 2);
    take_preference(&mut t, None);
    assert_eq!(current_theme(&t), 2);
}

/// The themes go round: the next after the last is the first, and any index
/// names one of the nine.
#[test]
fn next_theme_wraps() {
    let mut t = ActiveTheme::new();
    assert_eq!(current_theme(&t), 0);
    assert_eq!(theme_name(&t), "Phosphor");
    for step in 1..=THEME_COUNT {
        next_theme(&mut t);
        assert_eq!(current_theme(&t), step % THEME_COUNT);
    }
    set_theme(&mut t, 10);
    assert_eq!(current_theme(&t), 1);
    assert_eq!(theme_name(&t), "SpaceVim");
    set_theme(&mut t, 8);
    assert_eq!(theme_name(&t), "SpaceVim2");
}

/// Lightening adds to each channel and stops at the top; blending goes
/// from one colour to the other; dimming scales each channel.
#[test]
fn the_colour_arithmetic() {
    let t = ActiveTheme::new();
    let base = bg(&t).bg.unwrap();
    let lit = transport_hi_bg(&t);
    assert_eq!(tc_r(lit) as u16, (tc_r(base) as u16 + 12).min(255));
    assert_eq!(tc_g(lit) as u16, (tc_g(base) as u16 + 12).min(255));
    let mixed = playhead_bg(&t);
    assert_eq!(tc_r(mixed) as u16, (tc_r(base) as u16 * 80 + 255 * 20) / 100);
    assert_eq!(tc_b(mixed) as u16, (tc_b(base) as u16 * 80 + 50 * 20) / 100);
    assert_eq!(dim_color(Color::Rgb(200, 100, 50), 50), Color::Rgb(100, 50, 25));
    assert_eq!(dim_color(Color::Rgb(200, 100, 50), 0), Color::Rgb(0, 0, 0));
    assert_eq!(tc_r(Color::Reset), 128, "a colour with no channels reads as grey");
}

/// A header button: the track's colour, bold, while on; the resting button
/// otherwise.
#[test]
fn a_button_lights_in_the_track_colour() {
    let t = ActiveTheme::new();
    let tc = track_color(&t, 2);
    let on = btn_style(&t, true, false, tc);
    assert!(on.bold);
    assert_eq!(on.fg, Some(dim_color(tc, 80)));
    let off = btn_style(&t, false, false, tc);
    assert!(!off.bold);
    assert_ne!(on, off);
    let focused = btn_style(&t, false, true, tc);
    assert_ne!(focused, off);
    // Track colours go round every eight.
    assert_eq!(track_color(&t, 3), track_color(&t, 11));
    assert_eq!(bg(&t), Style::new().bg(bg(&t).bg.unwrap()));
}
