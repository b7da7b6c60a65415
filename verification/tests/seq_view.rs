use phosphor_tui::seq_view::{
    coaching_line, header_line, lane_cells, lane_strip, lane_window, mode_short, readout_line, ruler_cells,
    slots_line, step_title, GridView, LaneRow, Mode, SeqHeader, SlotsState, StepCell, StripLane,
};
use phosphor_tui::steps::{geometry, SeqBand};
use phosphor_tui::text::Span;
use phosphor_tui::theme::{track_color, ActiveTheme};

fn text(spans: &[Span]) -> String {
    spans.iter().map(|s| s.text.as_str()).collect()
}

fn header() -> SeqHeader {
    SeqHeader {
        playhead: None,
        steps: 16,
        playing: false,
        selected_slot: 0,
        child: Some("drum rack".to_string()),
        live_slot: 0,
        countdown: None,
        chained: false,
        digits: String::new(),
        band: SeqBand::Grid,
        step_recording: false,
        clips: 0,
    }
}

/// The header says whether the machine is running, and what it is doing.
#[test]
fn the_header_says_what_the_machine_is_doing() {
    let t = ActiveTheme::new();
    let h = header();
    assert_eq!(text(&header_line(&t, &h)), " \u{25A0} muted \u{2014} t plays this pattern  slot A \u{00B7} drum rack ");
    let mut h = header();
    h.playing = true;
    assert!(text(&header_line(&t, &h)).starts_with(" \u{25A0} stopped \u{2014} t or SPC p plays "));
    h.playhead = Some(4);
    assert!(text(&header_line(&t, &h)).starts_with(" \u{25B6} step 5 of 16 "));
}

/// A queued switch counts down to where it lands.
#[test]
fn the_countdown_reaches_the_screen() {
    let t = ActiveTheme::new();
    let mut h = header();
    h.countdown = Some((2, 3));
    assert!(text(&header_line(&t, &h)).contains("\u{2192} C in 3 steps "));
    h.countdown = Some((2, 1));
    assert!(text(&header_line(&t, &h)).contains("\u{2192} C in 1 step "));
    h.countdown = Some((2, 0));
    assert!(text(&header_line(&t, &h)).contains("\u{2192} C next "));
    h.countdown = None;
    h.chained = true;
    assert!(text(&header_line(&t, &h)).contains("chained "));
}

/// A number half typed is shown, and a pattern doubled by clips says so.
#[test]
fn a_half_typed_number_is_shown() {
    let t = ActiveTheme::new();
    let mut h = header();
    h.digits = "1".to_string();
    assert!(text(&header_line(&t, &h)).contains("step 1_ "));
    h.band = SeqBand::Slots;
    assert!(text(&header_line(&t, &h)).contains("slot 1_ "));
    h.playing = true;
    h.clips = 2;
    h.live_slot = 1;
    let said = text(&header_line(&t, &h));
    assert!(said.contains("(playing B) "));
    assert!(said.ends_with("\u{203C} 2 clips too "));
}

/// An empty pattern says what to press.
#[test]
fn an_empty_pattern_coaches() {
    let t = ActiveTheme::new();
    let kit = text(&coaching_line(&t, true));
    assert!(kit.contains("pick a sound"));
    assert!(text(&coaching_line(&t, false)).contains("pick a row"));
    assert!(kit.starts_with("     n \u{2014} write a step"));
}

#[test]
fn names_and_windows() {
    assert_eq!(mode_short(Mode::Dorian), "dor");
    assert_eq!(mode_short(Mode::Chromatic), "off");
    assert_eq!(step_title(true, 4, "BD"), "step 5");
    assert_eq!(step_title(false, 4, "BD"), "lane BD");
    assert_eq!(lane_window(24, true), 8);
    assert_eq!(lane_window(12, true), 8);
    assert_eq!(lane_window(11, true), 6);
    assert_eq!(lane_window(8, false), 2);
    assert_eq!(lane_window(2, false), 1);
}

/// The strip brackets the lane being written.
#[test]
fn the_strip_stands_in_for_the_rows() {
    let t = ActiveTheme::new();
    let lane = |label: &str, selected| StripLane {
        label: label.to_string(),
        selected,
        soloed: false,
        muted: false,
        audible: true,
        used: false,
    };
    let spans = lane_strip(&t, true, true, track_color(&t, 0), &vec![lane("BD", false), lane("SD", true)]);
    assert_eq!(text(&spans), " sound  BD [SD]");
}

#[test]
fn the_readout_spells_the_chord() {
    let t = ActiveTheme::new();
    let spans = readout_line(&t, true, "C maj  C E G", Some(("dorian", "D")), true);
    assert_eq!(text(&spans), "      \u{25B8} C maj  C E G   dorian D  accent");
}

/// The slots: which is looked at, which plays, which is queued, and the
/// chain.
#[test]
fn the_slot_strip_selects_and_queues() {
    let t = ActiveTheme::new();
    let s = SlotsState {
        band_on: true,
        focused: true,
        colour: track_color(&t, 0),
        selected: 1,
        live: 0,
        playing: true,
        queued: Some(2),
        used: vec![true, true, false, false, false, false, false, false],
        switch: "bar".to_string(),
        chain: vec![(0, 2), (1, 1)],
    };
    assert_eq!(
        text(&slots_line(&t, &s)),
        "  slots \u{25B6}A \u{25B8}B \u{00BB}C  D  E  F  G  H  on bar  chain A\u{00D7}2 B "
    );
    let mut s = s;
    s.chain = Vec::new();
    assert!(text(&slots_line(&t, &s)).ends_with(" chain \u{2014}"));
}

/// The running light chases across the ruler and every lane at once.
#[test]
fn the_running_light_chases_across_every_lane() {
    let t = ActiveTheme::new();
    let g = geometry(16, 60, 0);
    let v = GridView { focused: true, grid_on: true, colour: track_color(&t, 0), step_cursor: 0, playhead: Some(5) };
    let ruler = ruler_cells(&t, &g, 60, 0, Some(5), true);
    let x = g.x_of(5).unwrap();
    let lane = LaneRow {
        label: "BD".to_string(),
        here: false,
        soloed: false,
        muted: false,
        audible: true,
        steps: vec![StepCell { on: true, accent: false, tie: false }; 16],
    };
    let row = lane_cells(&t, &g, &lane, &v, 60);
    for column in x..x + g.cell {
        assert_eq!(ruler[column].1, row[column].1, "the light is not one bar across the machine");
    }
    let numbers: String = ruler.iter().map(|c| c.0).collect();
    assert!(numbers.starts_with("     1  2  3  4   5"), "{numbers:?}");
}

/// A hit is exactly one mark, on its own lane's row, and a tie shows its
/// tail in the separator column.
#[test]
fn one_toggle_makes_exactly_one_mark() {
    let t = ActiveTheme::new();
    let g = geometry(16, 60, 0);
    let v = GridView { focused: false, grid_on: false, colour: track_color(&t, 0), step_cursor: 0, playhead: None };
    let mut steps = vec![StepCell { on: false, accent: false, tie: false }; 16];
    steps[3] = StepCell { on: true, accent: false, tie: true };
    let lane = LaneRow { label: "SD".to_string(), here: false, soloed: false, muted: false, audible: true, steps };
    let row: String = lane_cells(&t, &g, &lane, &v, 60).iter().map(|c| c.0).collect();
    assert_eq!(row.matches('\u{2593}').count(), 2, "a hit is one button of two solid columns");
    assert_eq!(row.matches('\u{2500}').count(), 1, "the tie's tail");
    assert!(row.starts_with(" SD "));
}
