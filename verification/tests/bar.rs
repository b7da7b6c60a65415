use phosphor_tui::bar::{
    hint_spans, hints, middle, mode_tag, pane_spans, tag_span, BarState, ClipFocus, ClipTab, Pane, PaneName, RollFocus,
    TagLook,
};
use phosphor_tui::steps::SeqBand;
use phosphor_tui::theme::ActiveTheme;

fn idle() -> BarState {
    BarState {
        key_listen: false,
        loop_active: false,
        loop_enabled: false,
        pane: Pane::Tracks,
        transport_editing: false,
        source_here: false,
        source_armed: false,
        tab: ClipTab::PianoRoll,
        focus: ClipFocus::FxPanel,
        chain_panel: false,
        fx_locked: false,
        fx_wide: false,
        compressor_open: false,
        seq_locked: false,
        seq_band: SeqBand::Grid,
        kit_rows: false,
        trim_open: false,
        root_learn: false,
        pads_locked: false,
        keys_mode: false,
        first_knob: false,
        note_edit: false,
        roll_focus: RollFocus::Columns,
        track_selected: false,
    }
}

fn text(spans: &[phosphor_tui::text::Span]) -> String {
    spans.iter().map(|s| s.text.as_str()).collect()
}

/// Key listen takes the tag over everything, and blinks.
#[test]
fn key_listen_takes_the_mode_tag() {
    let t = ActiveTheme::new();
    let mut s = idle();
    s.key_listen = true;
    s.loop_active = true;
    s.pane = Pane::Transport;
    assert_eq!(mode_tag(&s), ("-- KEY LISTEN --", TagLook::Alarm));
    let lit = tag_span(&t, &s, true);
    let dark = tag_span(&t, &s, false);
    assert_eq!(lit.text, " -- KEY LISTEN -- ");
    assert!(lit.style.bold);
    assert_ne!(lit.style, dark.style, "the tag does not blink");
}

/// Every mode names itself.
#[test]
fn each_mode_has_its_tag() {
    let mut s = idle();
    assert_eq!(mode_tag(&s).0, "-- NORMAL --");
    s.track_selected = true;
    assert_eq!(mode_tag(&s).0, "-- SELECT --");
    s.pane = Pane::Transport;
    assert_eq!(mode_tag(&s).0, "-- TRANSPORT --");
    s.transport_editing = true;
    assert_eq!(mode_tag(&s).0, "-- EDIT --");
    let mut s = idle();
    s.pane = Pane::ClipView;
    s.focus = ClipFocus::PianoRoll;
    s.tab = ClipTab::Sequencer;
    assert_eq!(mode_tag(&s).0, "-- STEP --");
    s.seq_locked = true;
    assert_eq!(mode_tag(&s).0, "-- HOLD --");
    s.tab = ClipTab::Pads;
    assert_eq!(mode_tag(&s).0, "-- PADS --");
    s.keys_mode = true;
    assert_eq!(mode_tag(&s).0, "-- KEYS --");
    s.root_learn = true;
    assert_eq!(mode_tag(&s), ("-- ROOT? --", TagLook::Alarm));
    s.trim_open = true;
    assert_eq!(mode_tag(&s).0, "-- TRIM --");
    s.source_here = true;
    assert_eq!(mode_tag(&s).0, "-- SOURCE --");
    s.source_armed = true;
    assert_eq!(mode_tag(&s), ("-- TAKE --", TagLook::Alarm));
    s.loop_active = true;
    assert_eq!(mode_tag(&s), ("-- LOOP --", TagLook::Looping));
}

/// A held knob lists only what it can do.
#[test]
fn a_held_knob_says_only_what_it_can_do() {
    let mut s = idle();
    s.pane = Pane::ClipView;
    s.focus = ClipFocus::PianoRoll;
    s.tab = ClipTab::Sequencer;
    s.seq_locked = true;
    assert_eq!(hints(&s), vec![("hl", "turn"), ("H/L", "stride"), ("esc", "release")]);
    s.seq_locked = false;
    s.kit_rows = true;
    assert_eq!(hints(&s)[1], ("jk", "sound"));
    s.kit_rows = false;
    assert_eq!(hints(&s)[1], ("jk", "row"));
    s.seq_band = SeqBand::Slots;
    assert_eq!(hints(&s)[0], ("hl", "slot"));
}

/// The loop editor's enter says which way it will flip the loop.
#[test]
fn the_loop_toggle_says_where_it_goes() {
    let mut s = idle();
    s.loop_active = true;
    assert!(hints(&s).contains(&("enter", "on")));
    s.loop_enabled = true;
    assert!(hints(&s).contains(&("enter", "off")));
}

/// Source mode lists its three keys, and `r` says what it will do.
#[test]
fn source_mode_lists_three_keys() {
    let mut s = idle();
    s.pane = Pane::ClipView;
    s.focus = ClipFocus::PianoRoll;
    s.tab = ClipTab::Pads;
    s.source_here = true;
    assert_eq!(hints(&s), vec![("r", "record"), ("i", "instrument"), ("esc", "sampler")]);
    s.source_armed = true;
    assert_eq!(hints(&s)[0], ("r", "end take"));
}

/// The hints are drawn key then what it does.
#[test]
fn hints_are_drawn_key_and_word() {
    let t = ActiveTheme::new();
    let spans = hint_spans(&t, &vec![("jk", "nav"), ("tab", "pane")]);
    assert_eq!(text(&spans), "jk\u{00B7}nav  tab\u{00B7}pane  ");
    assert_eq!(spans.len(), 4);
}

/// A message takes the middle of the bar, unless a clip number is being
/// typed; key listen takes it over both and says the way out.
#[test]
fn the_middle_of_the_bar() {
    let t = ActiveTheme::new();
    let s = idle();
    let said = middle(&t, &s, None, Some("saved"), false, false);
    assert_eq!(text(&said), "saved");
    let typing = middle(&t, &s, None, Some("saved"), true, false);
    assert!(text(&typing).starts_with("jk\u{00B7}track"));
    let listen = middle(&t, &s, Some("Drums"), Some("saved"), false, true);
    assert_eq!(
        text(&listen),
        "Drums is playing its sidechain key  \u{00b7} esc puts it back \u{00b7} clears on stop"
    );
}

/// The pane list lights the focused pane and shows a clip number being
/// typed.
#[test]
fn the_pane_list() {
    let t = ActiveTheme::new();
    let panes = vec![
        PaneName { pane: Pane::Transport, number: 1, label: "transport".to_string() },
        PaneName { pane: Pane::Tracks, number: 2, label: "tracks".to_string() },
        PaneName { pane: Pane::ClipView, number: 3, label: "clip".to_string() },
    ];
    let spans = pane_spans(&t, Pane::Tracks, &panes, "");
    assert_eq!(text(&spans), "spc+1\u{00B7}transport  spc+2\u{00B7}tracks  spc+3\u{00B7}clip  :q");
    assert!(spans[2].style.bold);
    assert!(!spans[0].style.bold);
    let typed = pane_spans(&t, Pane::Tracks, &panes, "12");
    assert!(text(&typed).ends_with("clip:12_ :q"));
}
