use phosphor_tui::knobs::Knob;
use phosphor_tui::pad_panel::{
    no_zone_lines, panel_lines, sound_list, sound_row, LayerKnobs, PanelInput, SoundKind, SoundLine,
};
use phosphor_tui::style::Color;
use phosphor_tui::text::Span;
use phosphor_tui::theme::ActiveTheme;

fn line(spans: &[Span]) -> String {
    spans.iter().map(|s| s.text.as_str()).collect()
}

fn text(lines: &[Vec<Span>]) -> String {
    lines.iter().map(|l| line(l)).collect::<Vec<_>>().join("\n")
}

fn pad_knobs() -> Vec<Knob> {
    vec![
        Knob::new("trig", "one-shot".to_string(), 0),
        Knob::new("poly", "4".to_string(), 2),
        Knob::new("choke", "off".to_string(), 0),
        Knob::new("keytrk", "on".to_string(), 4),
    ]
}

fn layer_knobs() -> LayerKnobs {
    LayerKnobs {
        title: "layer 1".to_string(),
        knobs: vec![
            Knob::new("gain", "0.0 dB".to_string(), 3),
            Knob::new("tune", "+0 st".to_string(), 2),
            Knob::new("pan", "C".to_string(), 2),
            Knob::new("start", "0.000s".to_string(), 0),
            Knob::new("end", "1.000s".to_string(), 4),
            Knob::new("rev", "off".to_string(), 0),
        ],
    }
}

fn phrase_knobs() -> LayerKnobs {
    LayerKnobs {
        title: "phrase 1".to_string(),
        knobs: vec![
            Knob::new("vel", "100%".to_string(), 4),
            Knob::new("loop", "off".to_string(), 0),
            Knob::new("len", "2 bars".to_string(), 2),
        ],
    }
}

fn layer(name: &str, missing: bool) -> SoundLine {
    SoundLine {
        name: name.to_string(),
        seconds: "1.00s".to_string(),
        level: "0.0 dB".to_string(),
        muted: false,
        kind: SoundKind::Layer { missing },
    }
}

fn phrase() -> SoundLine {
    SoundLine {
        name: "phrase 1".to_string(),
        seconds: "2.00s".to_string(),
        level: "100%".to_string(),
        muted: false,
        kind: SoundKind::Phrase,
    }
}

fn input(knob: usize, layer: Option<LayerKnobs>, count: u64) -> PanelInput {
    PanelInput {
        title: "pad C3".to_string(),
        count,
        pad_label: "C3".to_string(),
        pad_knobs: Some(pad_knobs()),
        layer,
        knob,
        locked: false,
        focused: true,
        colour: Color::Rgb(200, 100, 50),
    }
}

/// An empty pad offers its own controls and nothing else.
#[test]
fn an_empty_pad_has_no_layer_controls() {
    let t = ActiveTheme::new();
    let sounds = sound_list(&t, &vec![], 0, true, false, 0, 0, true, 57);
    let panel = text(&panel_lines(&t, &input(0, None, 0), sounds, 57, 20));
    assert!(panel.contains("a loads a sound"), "{panel}");
    assert!(panel.contains("keytrk"), "the pad's own controls are missing:\n{panel}");
    assert!(!panel.contains("rev"), "an empty pad offered a layer control:\n{panel}");
}

/// The panel names the pad, names every sound on it, times them, and says
/// which one has lost its file.
#[test]
fn the_panel_reads_the_pad_and_its_layers() {
    let t = ActiveTheme::new();
    let list = vec![layer("kick", false), layer("clap", true)];
    let sounds = sound_list(&t, &list, 0, true, false, 2, 0, true, 57);
    let panel = text(&panel_lines(&t, &input(0, Some(layer_knobs()), 2), sounds, 57, 30));
    assert!(panel.contains("pad C3"), "{panel}");
    assert!(panel.contains("one-shot"), "{panel}");
    assert!(panel.contains("kick"), "{panel}");
    assert!(panel.contains("clap"), "{panel}");
    assert!(panel.contains("missing"), "{panel}");
    assert!(panel.contains("1.00s"), "a layer's length is not shown:\n{panel}");
    assert!(panel.contains("2 of 8 \u{00b7} [ ] picks"), "{panel}");
}

/// The panel scrolls to the control being turned: the cursor's control is on
/// the screen even when the panel is many times taller than its space.
#[test]
fn the_panel_scrolls_to_the_control_under_the_cursor() {
    let t = ActiveTheme::new();
    let labels = ["trig", "poly", "choke", "keytrk", "gain", "tune", "pan", "start", "end", "rev"];
    for (knob, label) in labels.iter().enumerate() {
        let list = vec![layer("kick", false), layer("clap", true)];
        let sounds = sound_list(&t, &list, 0, true, false, 2, 0, true, 57);
        let shown = text(&panel_lines(&t, &input(knob, Some(layer_knobs()), 2), sounds, 57, 3));
        assert!(shown.contains(label), "the cursor is on {label} and it is off the screen:\n{shown}");
        assert!(shown.lines().count() <= 3, "the panel outgrew its space:\n{shown}");
    }
}

/// A phrase row reads like a phrase: its name, its length, the velocity
/// scale as a percentage, and `phr`.
#[test]
fn a_phrase_row_says_what_it_is_and_how_long() {
    let t = ActiveTheme::new();
    let list = vec![layer("kick", false), layer("clap", true), phrase()];
    let sounds = sound_list(&t, &list, 2, true, false, 2, 1, true, 57);
    let panel = text(&panel_lines(&t, &input(0, Some(phrase_knobs()), 3), sounds, 57, 40));
    assert!(panel.contains("phrase 1"), "{panel}");
    assert!(panel.contains("phr"), "the row's kind is not on it:\n{panel}");
    assert!(panel.contains("2.00s"), "the length is not shown:\n{panel}");
    assert!(panel.contains("100%"), "the velocity scale is not a percentage:\n{panel}");
    assert!(panel.contains("2 of 4 phr") || panel.contains("1 of 4 phr"), "{panel}");
    assert!(panel.contains("vel"), "the phrase's control is missing:\n{panel}");
    assert!(panel.contains("keytrk"), "{panel}");
    assert!(!panel.contains(" rev"), "a phrase row offered reverse:\n{panel}");
    assert!(!panel.contains("tune"), "a phrase row offered tune:\n{panel}");
}

/// A sampler with no child cannot sound a phrase, so the row says so, in
/// the whole sentence where it fits.
#[test]
fn a_phrase_with_no_child_says_no_instrument() {
    let t = ActiveTheme::new();
    let list = vec![layer("kick", false), layer("clap", true), phrase()];
    let sounds = sound_list(&t, &list, 0, true, false, 2, 1, false, 57);
    let panel = text(&panel_lines(&t, &input(0, Some(layer_knobs()), 3), sounds, 57, 40));
    assert!(panel.contains("no inst"), "the dead phrase is not marked:\n{panel}");
    assert!(!panel.contains("% phr"), "a dead phrase was marked as a live one:\n{panel}");
    let sounds = sound_list(&t, &list, 0, true, false, 2, 1, false, 90);
    let wide = text(&panel_lines(&t, &input(0, Some(layer_knobs()), 3), sounds, 90, 40));
    assert!(wide.contains("no instrument"), "the warning was cut short:\n{wide}");
}

/// A cursor past what the pad holds is pulled back inside it.
#[test]
fn a_stale_layer_cursor_does_not_index_past_the_pad() {
    let t = ActiveTheme::new();
    let sounds = sound_list(&t, &vec![], 12, true, false, 0, 0, true, 57);
    let shown = text(&panel_lines(&t, &input(99, None, 0), sounds, 57, 20));
    assert!(shown.contains("keytrk"), "{shown}");
    let list = vec![layer("kick", false)];
    let rows = sound_list(&t, &list, 12, true, false, 1, 0, true, 57);
    assert!(line(&rows[1]).contains('\u{25B8}'), "the clamped cursor is not on the only sound");
}

/// A sound row: the caret against the number, the name, the length and the
/// level, and the mute mark.
#[test]
fn a_sound_row_reads_in_order() {
    let t = ActiveTheme::new();
    let mut kick = layer("kick", false);
    kick.muted = true;
    let row = line(&sound_row(&t, &kick, 0, true, true, true, 57));
    assert_eq!(row, "       \u{25B8} 1 kick                1.00s  0.0 dB \u{25CF}");
}

/// A panel narrower than its knobs is one line naming the pad; a key with no
/// zone says which keys make one; no room draws nothing.
#[test]
fn the_panel_gives_up_gracefully() {
    let t = ActiveTheme::new();
    let narrow = panel_lines(&t, &input(0, None, 2), vec![], 28, 10);
    assert_eq!(narrow.len(), 1);
    assert_eq!(line(&narrow[0]), " pad C3 \u{00b7} 2 sounds");
    assert!(panel_lines(&t, &input(0, None, 2), vec![], 57, 0).is_empty());
    let mut none = input(0, None, 0);
    none.pad_knobs = None;
    let lines = panel_lines(&t, &none, vec![], 57, 10);
    let shown = text(&lines);
    assert!(shown.contains("C3 \u{00b7} no zone on this key"), "{shown}");
    assert!(shown.contains("w covers the whole bed"), "{shown}");
    assert_eq!(no_zone_lines(&t, false, "C3", 57, 2).len(), 2);
}
