use phosphor_tui::roll::{
    header_spans, key_spans, roll_columns, roll_row, row_note, ColumnRange, GridMark, HeaderLead, NoteBar, NoteLook,
    RollRow,
};
use phosphor_tui::style::Color;
use phosphor_tui::text::Span;
use phosphor_tui::theme::{amber_bright_val, col_highlight_bg, selection_bg, track_color, ActiveTheme};

fn text(spans: &[Span]) -> String {
    spans.iter().map(|s| s.text.as_str()).collect()
}

fn cells(spans: &[Span]) -> Vec<(char, phosphor_tui::style::Style)> {
    spans.iter().flat_map(|s| s.text.chars().map(move |c| (c, s.style))).collect()
}

/// As many columns of at least three cells as fit, trimmed to a whole
/// number of them, the scroll held so the last screenful is full.
#[test]
fn the_columns_fit_the_roll() {
    let c = roll_columns(107, 32, 0);
    assert_eq!((c.visible, c.col_w, c.note_w, c.scroll), (32, 3, 96, 0));
    let c = roll_columns(57, 32, 30);
    assert_eq!(c.visible, 16);
    assert_eq!(c.col_w, 3);
    assert_eq!(c.scroll, 16, "the scroll ran past the last full screen");
    let c = roll_columns(200, 4, 0);
    assert_eq!((c.visible, c.col_w, c.note_w), (4, 48, 192));
    let c = roll_columns(3, 0, 5);
    assert_eq!((c.visible, c.scroll), (1, 0));
}

/// The column numbers sit over their columns, the cursor's bright.
#[test]
fn the_column_header() {
    let t = ActiveTheme::new();
    let c = roll_columns(25, 16, 0);
    let spans = header_spans(&t, HeaderLead::Blank, c, 1);
    assert_eq!(text(&spans), "      \u{2502}1  2  3  4  5  6  ");
    assert!(spans[3].style.bold);
    let rec = header_spans(&t, HeaderLead::Recording, c, 0);
    assert!(text(&rec).starts_with(" \u{25CF}REC \u{2502}"));
    let vel = header_spans(&t, HeaderLead::Velocity(Some(96)), c, 0);
    assert!(text(&vel).starts_with("v  96 \u{2502}"));
}

/// Rows count down from the top, the bottom row showing the bottom note.
#[test]
fn rows_run_down_the_keyboard() {
    assert_eq!(row_note(60, 12, 11), Some(60));
    assert_eq!(row_note(60, 12, 0), Some(71));
    assert_eq!(row_note(120, 12, 0), None, "a note past the top of MIDI was drawn");
}

fn row(note: u8) -> RollRow {
    RollRow {
        note,
        is_cur: false,
        highlighted: false,
        focused: false,
        row_mode: false,
        column: 0,
        column_selected: false,
        selection: None,
        playhead: None,
    }
}

/// The key at the left of a row is its name, right-aligned.
#[test]
fn the_key_names_its_note() {
    let t = ActiveTheme::new();
    assert_eq!(text(&key_spans(&t, &row(60))), "   C4 \u{2502}");
    assert_eq!(text(&key_spans(&t, &row(61))), "  C#4 \u{2502}");
    let mut cur = row(61);
    cur.is_cur = true;
    assert_eq!(key_spans(&t, &cur)[0].style.fg, Some(amber_bright_val(&t)));
}

/// A note is a bar with edges, as bright as it is loud; the column cursor
/// and the selection recolour the cells under them.
#[test]
fn a_row_draws_its_notes() {
    let t = ActiveTheme::new();
    let c = roll_columns(55, 16, 0);
    let tc = track_color(&t, 0);
    let loud = NoteLook { edit_cursor: false, selected: false, muted: false, velocity: 127 };
    let notes = vec![NoteBar { sx: 3, ex: 9, look: loud }];
    let marks = vec![(2usize, GridMark::Bar)];
    let drawn = cells(&roll_row(&t, &row(60), &c, tc, &marks, &notes));
    assert_eq!(drawn.len(), c.note_w);
    assert_eq!(drawn[2].0, '\u{2502}', "the gridline");
    assert_eq!(drawn[3].0, '\u{2502}', "the note's left edge");
    assert_eq!(drawn[4].0, '\u{2588}');
    assert_eq!(drawn[8].0, '\u{2502}', "the note's right edge");
    assert_eq!(drawn[9].0, ' ');
    assert_eq!(drawn[4].1.fg, Some(tc), "a loud note is not at full colour");

    let mut focused = row(60);
    focused.focused = true;
    focused.column = 1;
    let drawn = cells(&roll_row(&t, &focused, &c, tc, &Vec::new(), &Vec::new()));
    assert_eq!(drawn[c.col_w].1.bg, Some(col_highlight_bg(&t)));
    assert_ne!(drawn[0].1.bg, Some(col_highlight_bg(&t)));

    let mut selected = row(60);
    selected.selection = Some(ColumnRange { first: 2, last: 3 });
    let drawn = cells(&roll_row(&t, &selected, &c, tc, &Vec::new(), &Vec::new()));
    assert_eq!(drawn[2 * c.col_w].1.bg, Some(selection_bg(&t)));
    assert_eq!(drawn[4 * c.col_w - 1].1.bg, Some(selection_bg(&t)));
    assert_ne!(drawn[4 * c.col_w].1.bg, Some(selection_bg(&t)));
}

/// A muted note is struck through and darker than any sounding one.
#[test]
fn a_muted_note_is_struck_through() {
    let t = ActiveTheme::new();
    let c = roll_columns(55, 16, 0);
    let tc = Color::Rgb(200, 100, 40);
    let muted = NoteLook { edit_cursor: false, selected: false, muted: true, velocity: 127 };
    let drawn = cells(&roll_row(&t, &row(60), &c, tc, &Vec::new(), &vec![NoteBar { sx: 0, ex: 6, look: muted }]));
    assert!(drawn[2].1.crossed_out);
    assert_eq!(drawn[2].1.fg, Some(Color::Rgb(50, 25, 10)));
}
