//! The piano roll's layout and one row of it: how many columns fit and how
//! wide each is, the column numbers over the grid, the key at the left of a
//! row, and the row's cells with the gridlines, the selection, the column
//! cursor, the notes and the playhead painted over each other in that order.
//!
//! Where a note or a gridline falls is a fraction of the clip, and the
//! caller turns it into a column; everything from the columns on is here.

use vstd::prelude::*;

use crate::keyboard;
use crate::notes::{midi_note_name, note_name_spec};
use crate::style::{bolded, colors, on, Color, Style};
use crate::text::{
    cells_of, char_string, concatenated, decimal, decimal_spec, left_aligned, left_aligned_spec, maximal, merge_cells,
    right_aligned, right_aligned_spec, span_views, Span,
};
use crate::theme::{self, active, blend_spec, dim_color_spec, lighten_spec, ActiveTheme};

verus! {

/// Columns of the key at the left of each row, before its separator.
pub const KEY_W: usize = 6;

/// The narrowest a column is drawn while there is room for it.
pub const MIN_COLUMN: usize = 3;

/// How the roll's columns fit its width.
#[derive(Clone, Copy, Debug, PartialEq, Eq, Structural)]
pub struct RollColumns {
    /// Cells of the note area, a whole number of columns.
    pub note_w: usize,
    /// Cells a column.
    pub col_w: usize,
    /// Columns on the screen.
    pub visible: usize,
    /// The first column on the screen.
    pub scroll: usize,
}

/// The column layout of a roll `w` wide over `column_count` columns
/// scrolled to `scroll_x`: as many columns of at least three cells as fit,
/// never fewer than one, the scroll held so the last screenful is full, and
/// the note area trimmed to a whole number of columns.
pub open spec fn columns_spec(w: int, column_count: int, scroll_x: int) -> RollColumns {
    let room = if w >= KEY_W + 1 { w - (KEY_W + 1) } else { 0 };
    let cc = if column_count >= 1 { column_count } else { 1 };
    let fit = if room / 3 >= 1 { room / 3 } else { 1 };
    let max_visible = if fit <= cc { fit } else { cc };
    let scroll = if scroll_x <= cc - max_visible { scroll_x } else { cc - max_visible };
    let visible = if max_visible <= cc - scroll { max_visible } else { cc - scroll };
    let col_w = if room > 0 && visible > 0 { room / visible } else { 1 };
    RollColumns {
        note_w: (col_w * visible) as usize,
        col_w: col_w as usize,
        visible: visible as usize,
        scroll: scroll as usize,
    }
}

pub fn roll_columns(w: usize, column_count: usize, scroll_x: usize) -> (c: RollColumns)
    ensures
        c == columns_spec(w as int, column_count as int, scroll_x as int),
        c.visible >= 1,
        c.scroll + c.visible <= (if column_count >= 1 { column_count } else { 1 }),
        c.note_w == c.col_w * c.visible,
{
    let room = if w >= KEY_W + 1 { w - (KEY_W + 1) } else { 0 };
    let cc = if column_count >= 1 { column_count } else { 1 };
    let fit = if room / 3 >= 1 { room / 3 } else { 1 };
    let max_visible = if fit <= cc { fit } else { cc };
    let scroll = if scroll_x <= cc - max_visible { scroll_x } else { cc - max_visible };
    let visible = if max_visible <= cc - scroll { max_visible } else { cc - scroll };
    let col_w = if room > 0 && visible > 0 { room / visible } else { 1 };
    assert(col_w * visible <= room || room == 0) by (nonlinear_arith)
        requires
            room > 0 && visible > 0 ==> col_w == room / visible,
            visible > 0,
    ;
    assert(col_w * visible <= usize::MAX) by (nonlinear_arith)
        requires
            room > 0 ==> col_w * visible <= room,
            room == 0 ==> col_w == 1,
            visible <= usize::MAX,
            room <= usize::MAX,
    ;
    RollColumns { note_w: col_w * visible, col_w, visible, scroll }
}

/// Whenever the note area has room for a column of three cells, every column
/// gets at least three, and the trim to whole columns leaves fewer spare
/// cells than there are columns.
pub proof fn lemma_columns_are_readable(w: int, column_count: int, scroll_x: int)
    requires
        KEY_W + 1 + MIN_COLUMN <= w <= usize::MAX,
        0 <= scroll_x,
    ensures
        ({
            let c = columns_spec(w, column_count, scroll_x);
            let room = w - (KEY_W + 1);
            &&& c.col_w >= MIN_COLUMN
            &&& c.note_w <= room
            &&& room - c.note_w < c.visible
        }),
{
    let room = w - (KEY_W + 1);
    let cc = if column_count >= 1 { column_count } else { 1 };
    let fit = room / 3;
    let max_visible = if fit <= cc { fit } else { cc };
    let scroll = if scroll_x <= cc - max_visible { scroll_x } else { cc - max_visible };
    let visible = if max_visible <= cc - scroll { max_visible } else { cc - scroll };
    assert(fit >= 1);
    assert(1 <= visible <= fit);
    let col_w = room / visible;
    assert(col_w >= 3) by (nonlinear_arith)
        requires
            1 <= visible <= room / 3,
            col_w == room / visible,
            room >= 3,
    ;
    assert(col_w * visible <= room && room - col_w * visible < visible) by (nonlinear_arith)
        requires
            visible >= 1,
            col_w == room / visible,
            room >= 0,
    ;
    assert(col_w <= room) by (nonlinear_arith)
        requires
            visible >= 1,
            col_w == room / visible,
            room >= 0,
    ;
    let c = columns_spec(w, column_count, scroll_x);
    assert(c.col_w == col_w);
    assert(c.visible == visible);
    assert(c.note_w == col_w * visible);
}

/// What the column header starts with: the record light while recording,
/// the note under the edit cursor's velocity while editing, blank otherwise.
#[derive(Clone, Copy, Debug, PartialEq, Eq, Structural)]
pub enum HeaderLead {
    Recording,
    /// Editing notes; the velocity of the note under the cursor, if there is
    /// one.
    Velocity(Option<u8>),
    Blank,
}

/// The column numbers over the grid, each left-aligned in its column, the
/// cursor's bright.
pub open spec fn header_spec(t: &ActiveTheme, lead: HeaderLead, c: RollColumns, column: int) -> Seq<(Seq<char>, Style)> {
    let bg = active(t).bg;
    (match lead {
        HeaderLead::Recording => seq![
            (seq![' ', '\u{25CF}', 'R', 'E', 'C'], Style { fg: Some(active(t).rec_active), bg: None, bold: true, underlined: false, crossed_out: false }),
            (seq![' '], on(bg)),
        ],
        HeaderLead::Velocity(v) => seq![
            (match v { Some(v) => seq!['v'] + right_aligned_spec(decimal_spec(v as nat), 4), None => crate::text::repeated(' ', 5) },
                colors(active(t).amber, bg)),
            (seq![' '], on(bg)),
        ],
        HeaderLead::Blank => seq![(crate::text::repeated(' ', 6), on(bg))],
    }) + seq![(seq!['\u{2502}'], colors(active(t).border, bg))] + Seq::new(c.visible as nat, |i: int| {
        let abs = i + c.scroll;
        (
            left_aligned_spec(decimal_spec((abs + 1) as nat), c.col_w as nat),
            if abs == column { bolded(colors(active(t).amber_bright, bg)) } else { colors(active(t).dim, bg) },
        )
    })
}

pub fn header_spans(t: &ActiveTheme, lead: HeaderLead, c: RollColumns, column: usize) -> (spans: Vec<Span>)
    requires
        c.scroll + c.visible < usize::MAX,
    ensures
        span_views(spans@) == header_spec(t, lead, c, column as int),
{
    let mut spans: Vec<Span> = Vec::new();
    match lead {
        HeaderLead::Recording => {
            spans.push(Span::styled(
                String::from_str(" \u{25CF}REC"),
                Style::new().fg(theme::rec_active_val(t)).bold(),
            ));
            spans.push(Span::styled(char_string(' '), theme::bg(t)));
            proof {
                reveal_strlit(" \u{25CF}REC");
            }
        },
        HeaderLead::Velocity(v) => {
            let label = match v {
                Some(v) => {
                    let digits = decimal(v as u64);
                    let padded = right_aligned(digits.as_str(), 4);
                    concatenated("v", padded.as_str())
                },
                None => crate::text::repeat_char(' ', 5),
            };
            spans.push(Span::styled(label, theme::amber(t)));
            spans.push(Span::styled(char_string(' '), theme::bg(t)));
            proof {
                reveal_strlit("v");
            }
        },
        HeaderLead::Blank => {
            spans.push(Span::styled(crate::text::repeat_char(' ', 6), theme::bg(t)));
        },
    }
    spans.push(Span::styled(char_string('\u{2502}'), theme::border_style(t)));
    let ghost head = span_views(spans@);
    let mut i: usize = 0;
    while i < c.visible
        invariant
            i <= c.visible,
            c.scroll + c.visible < usize::MAX,
            span_views(spans@) =~~= head + Seq::new(i as nat, |k: int| {
                let abs = k + c.scroll;
                (
                    left_aligned_spec(decimal_spec((abs + 1) as nat), c.col_w as nat),
                    if abs == column { bolded(colors(active(t).amber_bright, active(t).bg)) } else { colors(active(t).dim, active(t).bg) },
                )
            }),
        decreases c.visible - i,
    {
        let abs = i + c.scroll;
        let number = decimal((abs + 1) as u64);
        let text = left_aligned(number.as_str(), c.col_w);
        let style = if abs == column { theme::amber_bright(t).bold() } else { theme::dim(t) };
        let ghost before = span_views(spans@);
        spans.push(Span::styled(text, style));
        proof {
            let f = |k: int| {
                let abs = k + c.scroll;
                (
                    left_aligned_spec(decimal_spec((abs + 1) as nat), c.col_w as nat),
                    if abs == column { bolded(colors(active(t).amber_bright, active(t).bg)) } else { colors(active(t).dim, active(t).bg) },
                )
            };
            assert(span_views(spans@) =~= before.push((text@, style)));
            assert(Seq::new(i as nat + 1, f) =~= Seq::new(i as nat, f).push(f(i as int)));
        }
        i += 1;
    }
    assert(span_views(spans@) =~~= header_spec(t, lead, c, column as int));
    spans
}

/// The note on row `row` of `rows`, counting from the top, when the bottom
/// row shows `bottom`; none where that is off the MIDI range.
pub open spec fn row_note_spec(bottom: u8, rows: int, row: int) -> Option<u8> {
    let n = bottom + (rows - 1 - row);
    if 0 <= n <= 127 { Some(n as u8) } else { None }
}

pub fn row_note(bottom: u8, rows: usize, row: usize) -> (n: Option<u8>)
    requires
        row < rows,
        rows < 32768,
    ensures
        n == row_note_spec(bottom, rows as int, row as int),
{
    let n: i32 = bottom as i32 + (rows as i32 - 1 - row as i32);
    if 0 <= n && n <= 127 { Some(n as u8) } else { None }
}

/// A range of columns, first and last.
#[derive(Clone, Copy, Debug, PartialEq, Eq, Structural)]
pub struct ColumnRange {
    pub first: usize,
    pub last: usize,
}

/// What one row of the roll reads.
#[derive(Clone, Copy, Debug, PartialEq, Eq, Structural)]
pub struct RollRow {
    pub note: u8,
    /// The roll has the focus and its note cursor is on this row.
    pub is_cur: bool,
    /// The row is inside the selected range of rows.
    pub highlighted: bool,
    /// The roll has the focus, so the column cursor is drawn.
    pub focused: bool,
    /// ...and its cursor is on a row rather than a column.
    pub row_mode: bool,
    /// The column cursor.
    pub column: usize,
    /// The column cursor is inside the selected range of columns.
    pub column_selected: bool,
    /// The selected range of columns.
    pub selection: Option<ColumnRange>,
    /// The cell the playhead is in, while the transport plays inside the
    /// clip.
    pub playhead: Option<usize>,
}

/// A row's background: the selection, the cursor, and the key colour.
pub open spec fn row_bg_spec(t: &ActiveTheme, r: RollRow) -> Color {
    let bg = active(t).bg;
    if r.highlighted && r.is_cur {
        blend_spec(bg, active(t).amber, 45)
    } else if r.highlighted {
        blend_spec(bg, active(t).amber, 30)
    } else if r.is_cur {
        lighten_spec(bg, 15)
    } else if keyboard::black(r.note as int) {
        lighten_spec(bg, 2)
    } else {
        lighten_spec(bg, 5)
    }
}

/// The key at the left of a row: its name right-aligned in five cells, and
/// the separator, heavier at each C.
pub open spec fn key_spec(t: &ActiveTheme, r: RollRow) -> Seq<(Seq<char>, Style)> {
    let fg = if r.is_cur { active(t).amber_bright } else if r.note % 12 == 0 { active(t).normal } else { active(t).dim };
    seq![
        (right_aligned_spec(note_name_spec(r.note), 5) + seq![' '], colors(fg, row_bg_spec(t, r))),
        (seq!['\u{2502}'], if r.note % 12 == 0 { colors(lighten_spec(active(t).bg, 10), active(t).bg) } else { colors(active(t).border, active(t).bg) }),
    ]
}

fn row_bg(t: &ActiveTheme, r: &RollRow) -> (c: Color)
    ensures
        c == row_bg_spec(t, *r),
{
    if r.highlighted && r.is_cur {
        theme::selection_cursor_bg(t)
    } else if r.highlighted {
        theme::selection_bg(t)
    } else if r.is_cur {
        theme::piano_cursor_bg(t)
    } else if keyboard::is_black(r.note) {
        theme::piano_black_bg(t)
    } else {
        theme::piano_white_bg(t)
    }
}

pub fn key_spans(t: &ActiveTheme, r: &RollRow) -> (spans: Vec<Span>)
    ensures
        span_views(spans@) == key_spec(t, *r),
{
    let fg = if r.is_cur {
        theme::amber_bright_val(t)
    } else if r.note % 12 == 0 {
        theme::normal_val(t)
    } else {
        theme::dim_color_val(t)
    };
    let name = midi_note_name(r.note);
    let padded = right_aligned(name.as_str(), 5);
    let mut spans: Vec<Span> = Vec::new();
    spans.push(Span::styled(concatenated(padded.as_str(), " "), Style::new().fg(fg).bg(row_bg(t, r))));
    spans.push(Span::styled(
        char_string('\u{2502}'),
        if r.note % 12 == 0 { Style::new().fg(theme::grid_major(t)).bg(theme::bg_val(t)) } else { theme::border_style(t) },
    ));
    proof {
        reveal_strlit(" ");
    }
    assert(span_views(spans@) =~~= key_spec(t, *r));
    spans
}

/// A gridline's weight: a bar, a beat, or a subdivision of one.
#[derive(Clone, Copy, Debug, PartialEq, Eq, Structural)]
pub enum GridMark {
    Bar,
    Beat,
    Sub,
}

/// How a note is drawn, from the edit state and the note itself.
#[derive(Clone, Copy, Debug, PartialEq, Eq, Structural)]
pub struct NoteLook {
    /// The edit cursor is on it.
    pub edit_cursor: bool,
    /// It is among the notes selected while editing.
    pub selected: bool,
    pub muted: bool,
    pub velocity: u8,
}

/// A note on this row, by the cells it spans: `ex` is where its end falls,
/// before it is widened to at least a cell and clamped to the area.
#[derive(Clone, Copy, Debug, PartialEq, Eq, Structural)]
pub struct NoteBar {
    pub sx: usize,
    pub ex: usize,
    pub look: NoteLook,
}

/// A note's style: the edit cursor white on amber, a selected note pale on
/// brown, a muted note dark and struck through, and any other note as bright
/// as it is loud, from 45% of the track's colour for the softest to 100%.
pub open spec fn note_style_spec(t: &ActiveTheme, r: RollRow, tc: Color, look: NoteLook) -> Style {
    let base = Style {
        fg: Some(tc),
        bg: Some(if r.is_cur { lighten_spec(active(t).bg, 15) } else { row_bg_spec(t, r) }),
        bold: true,
        underlined: false,
        crossed_out: false,
    };
    if look.edit_cursor {
        bolded(colors(Color::Rgb(255, 255, 255), active(t).amber))
    } else if look.selected {
        bolded(colors(Color::Rgb(255, 255, 200), Color::Rgb(80, 60, 20)))
    } else if look.muted {
        Style { fg: Some(dim_color_spec(tc, 25)), crossed_out: true, ..base }
    } else {
        Style { fg: Some(dim_color_spec(tc, (45 + look.velocity as int * 55 / 127) as u16)), ..base }
    }
}

/// The fill of a selection or cursor column over a cell: its glyph and
/// foreground kept, its background replaced.
pub open spec fn refill(cell: (char, Style), fallback: Color, bg: Color) -> (char, Style) {
    (cell.0, colors(match cell.1.fg { Some(f) => f, None => fallback }, bg))
}

/// The cells a note covers on a row `note_w` wide.
pub open spec fn note_end(n: NoteBar, note_w: int) -> int {
    let e = if n.ex as int >= n.sx + 1 { n.ex as int } else { n.sx + 1 };
    if e <= note_w { e } else { note_w }
}

/// One note painted over a cell: the first cell, and the last of a note
/// longer than two, are its edges.
pub open spec fn paint_note(cell: (char, Style), x: int, n: NoteBar, style: Style, row_bg: Color, note_w: int) -> (char, Style) {
    let e = note_end(n, note_w);
    if n.sx <= x < e {
        let j = x - n.sx;
        let len = e - n.sx;
        if j == 0 || (len > 2 && j == len - 1) {
            ('\u{2502}', colors(row_bg, match style.fg { Some(f) => f, None => Color::Reset }))
        } else {
            ('\u{2588}', style)
        }
    } else {
        cell
    }
}

/// Every note painted over a cell, in order.
pub open spec fn apply_notes(
    cell: (char, Style),
    x: int,
    notes: Seq<NoteBar>,
    t: &ActiveTheme,
    r: RollRow,
    tc: Color,
    note_w: int,
) -> (char, Style)
    decreases notes.len(),
{
    if notes.len() == 0 {
        cell
    } else {
        let before = apply_notes(cell, x, notes.drop_last(), t, r, tc, note_w);
        paint_note(before, x, notes.last(), note_style_spec(t, r, tc, notes.last().look), row_bg_spec(t, r), note_w)
    }
}

/// Every gridline painted over a cell, in order.
pub open spec fn apply_marks(cell: (char, Style), x: int, marks: Seq<(usize, GridMark)>, t: &ActiveTheme, row_bg: Color) -> (char, Style)
    decreases marks.len(),
{
    if marks.len() == 0 {
        cell
    } else {
        let before = apply_marks(cell, x, marks.drop_last(), t, row_bg);
        let (mx, kind) = marks.last();
        if mx == x {
            let bg = active(t).bg;
            match kind {
                GridMark::Bar => ('\u{2502}', colors(lighten_spec(bg, 10), row_bg)),
                GridMark::Beat => ('\u{2506}', colors(lighten_spec(bg, 6), row_bg)),
                GridMark::Sub => ('\u{00B7}', colors(dim_color_spec(lighten_spec(bg, 6), 40), row_bg)),
            }
        } else {
            before
        }
    }
}

/// The cell `x` of a row's note area: the gridlines over the row's
/// background, the selected columns, the column cursor, the notes, and the
/// playhead, each over what is under it.
pub open spec fn roll_cell_spec(
    t: &ActiveTheme,
    r: RollRow,
    c: RollColumns,
    tc: Color,
    marks: Seq<(usize, GridMark)>,
    notes: Seq<NoteBar>,
    x: int,
) -> (char, Style) {
    let bg = row_bg_spec(t, r);
    let dim = active(t).dim;
    let c0 = (' ', colors(dim, bg));
    let c1 = apply_marks(c0, x, marks, t, bg);
    let c2 = match r.selection {
        Some(ColumnRange { first, last }) => {
            let vs = if first >= c.scroll { first - c.scroll } else { 0 };
            let ve = if last + 1 >= c.scroll { last + 1 - c.scroll } else { 0 };
            let hx_end = if ve * c.col_w <= c.note_w { ve * c.col_w } else { c.note_w as int };
            if vs * c.col_w <= x < hx_end { refill(c1, dim, blend_spec(active(t).bg, active(t).amber, 30)) } else { c1 }
        },
        None => c1,
    };
    let cursor_shown = r.focused && c.scroll <= r.column < c.scroll + c.visible;
    let col_start = (r.column - c.scroll) * c.col_w;
    let col_end = if col_start + c.col_w <= c.note_w { col_start + c.col_w } else { c.note_w as int };
    let col_bg = if r.row_mode && r.is_cur {
        lighten_spec(active(t).bg, 18)
    } else if r.column_selected {
        blend_spec(active(t).bg, active(t).amber, 45)
    } else {
        lighten_spec(active(t).bg, 8)
    };
    let c3 = if cursor_shown && col_start <= x < col_end { refill(c2, dim, col_bg) } else { c2 };
    let c4 = apply_notes(c3, x, notes, t, r, tc, c.note_w as int);
    if r.playhead == Some(x as usize) {
        (c4.0, colors(Color::Rgb(255, 200, 50), blend_spec(active(t).bg, Color::Rgb(255, 200, 50), 20)))
    } else {
        c4
    }
}

fn note_style(t: &ActiveTheme, r: &RollRow, tc: Color, look: &NoteLook) -> (s: Style)
    ensures
        s == note_style_spec(t, *r, tc, *look),
{
    let base = Style::new().fg(tc).bg(if r.is_cur { theme::piano_cursor_bg(t) } else { row_bg(t, r) }).bold();
    if look.edit_cursor {
        Style::new().fg(Color::Rgb(255, 255, 255)).bg(theme::amber_val(t)).bold()
    } else if look.selected {
        Style::new().fg(Color::Rgb(255, 255, 200)).bg(Color::Rgb(80, 60, 20)).bold()
    } else if look.muted {
        Style { fg: Some(theme::dim_color(tc, 25)), crossed_out: true, ..base }
    } else {
        let brightness: u16 = 45 + (look.velocity as u16 * 55) / 127;
        proof {
            theme::lemma_dims_safely(tc, brightness);
        }
        Style { fg: Some(theme::dim_color(tc, brightness)), ..base }
    }
}

fn roll_cell(
    t: &ActiveTheme,
    r: &RollRow,
    c: &RollColumns,
    tc: Color,
    marks: &Vec<(usize, GridMark)>,
    notes: &Vec<NoteBar>,
    styles: &Vec<Style>,
    x: usize,
) -> (cell: (char, Style))
    requires
        styles.len() == notes.len(),
        forall|i: int| 0 <= i < notes.len() ==> #[trigger] styles@[i] == note_style_spec(t, *r, tc, notes@[i].look),
        c.note_w == c.col_w * c.visible,
        c.scroll + c.visible < usize::MAX,
        x < c.note_w,
    ensures
        cell == roll_cell_spec(t, *r, *c, tc, marks@, notes@, x as int),
{
    let bg = row_bg(t, r);
    let dim = theme::dim_color_val(t);
    let base = theme::bg_val(t);
    let mut cell: (char, Style) = (' ', Style::new().fg(dim).bg(bg));
    let ghost c0 = cell;
    let mut k: usize = 0;
    while k < marks.len()
        invariant
            k <= marks.len(),
            cell == apply_marks(c0, x as int, marks@.subrange(0, k as int), t, bg),
            bg == row_bg_spec(t, *r),
            base == active(t).bg,
        decreases marks.len() - k,
    {
        let (mx, kind) = marks[k];
        if mx == x {
            cell = match kind {
                GridMark::Bar => ('\u{2502}', Style::new().fg(theme::grid_major(t)).bg(bg)),
                GridMark::Beat => ('\u{2506}', Style::new().fg(theme::grid_minor(t)).bg(bg)),
                GridMark::Sub => ('\u{00B7}', Style::new().fg(theme::dim_color(theme::grid_minor(t), 40)).bg(bg)),
            };
        }
        proof {
            assert(marks@.subrange(0, k as int + 1).drop_last() =~= marks@.subrange(0, k as int));
        }
        k += 1;
    }
    assert(marks@.subrange(0, marks.len() as int) =~= marks@);
    if let Some(ColumnRange { first, last }) = r.selection {
        let vs = if first >= c.scroll { first - c.scroll } else { 0 };
        let ve: u128 = if last as u128 + 1 >= c.scroll as u128 { last as u128 + 1 - c.scroll as u128 } else { 0 };
        assert(vs as int * (c.col_w as int) <= u128::MAX && ve as int * (c.col_w as int) <= u128::MAX) by (nonlinear_arith)
            requires
                vs <= u64::MAX,
                ve <= u64::MAX + 1,
                c.col_w <= u64::MAX,
        ;
        let lo = vs as u128 * c.col_w as u128;
        let hi = ve * c.col_w as u128;
        let hx_end: u128 = if hi <= c.note_w as u128 { hi } else { c.note_w as u128 };
        if lo <= x as u128 && (x as u128) < hx_end {
            let fg = match cell.1.fg {
                Some(f) => f,
                None => dim,
            };
            cell = (cell.0, Style::new().fg(fg).bg(theme::selection_bg(t)));
        }
    }
    if r.focused && c.scroll <= r.column && r.column < c.scroll + c.visible {
        let vis = r.column - c.scroll;
        assert(vis * c.col_w + c.col_w <= c.note_w) by (nonlinear_arith)
            requires
                vis < c.visible,
                c.note_w == c.col_w * c.visible,
        ;
        let col_start = vis * c.col_w;
        let col_end = col_start + c.col_w;
        let col_bg = if r.row_mode && r.is_cur {
            theme::col_row_bg(t)
        } else if r.column_selected {
            theme::selection_cursor_bg(t)
        } else {
            theme::col_highlight_bg(t)
        };
        if col_start <= x && x < col_end {
            let fg = match cell.1.fg {
                Some(f) => f,
                None => dim,
            };
            cell = (cell.0, Style::new().fg(fg).bg(col_bg));
        }
    }
    let ghost c3 = cell;
    let mut k: usize = 0;
    while k < notes.len()
        invariant
            k <= notes.len(),
            styles.len() == notes.len(),
            forall|i: int| 0 <= i < notes.len() ==> #[trigger] styles@[i] == note_style_spec(t, *r, tc, notes@[i].look),
            cell == apply_notes(c3, x as int, notes@.subrange(0, k as int), t, *r, tc, c.note_w as int),
            bg == row_bg_spec(t, *r),
            x < c.note_w,
        decreases notes.len() - k,
    {
        let n = notes[k];
        let e0 = if n.ex >= n.sx && n.ex - n.sx >= 1 { n.ex } else if n.sx < usize::MAX { n.sx + 1 } else { n.sx };
        let e = if e0 <= c.note_w { e0 } else { c.note_w };
        proof {
            assert(e as int == note_end(n, c.note_w as int));
        }
        if n.sx <= x && x < e {
            let j = x - n.sx;
            let len = e - n.sx;
            let style = styles[k];
            if j == 0 || (len > 2 && j == len - 1) {
                let under = match style.fg {
                    Some(f) => f,
                    None => Color::Reset,
                };
                cell = ('\u{2502}', Style::new().fg(bg).bg(under));
            } else {
                cell = ('\u{2588}', style);
            }
        }
        proof {
            assert(notes@.subrange(0, k as int + 1).drop_last() =~= notes@.subrange(0, k as int));
        }
        k += 1;
    }
    assert(notes@.subrange(0, notes.len() as int) =~= notes@);
    if let Some(px) = r.playhead {
        if px == x {
            cell = (cell.0, Style::new().fg(theme::playhead_fg()).bg(theme::playhead_bg(t)));
        }
    }
    cell
}

/// One row's note area as spans: the cells `roll_cell_spec` states, merged
/// into runs of one style. `marks` are the gridlines the row's columns fall
/// on and `notes` the notes on this row's pitch, in the clip's order.
pub fn roll_row(
    t: &ActiveTheme,
    r: &RollRow,
    c: &RollColumns,
    tc: Color,
    marks: &Vec<(usize, GridMark)>,
    notes: &Vec<NoteBar>,
) -> (spans: Vec<Span>)
    requires
        c.note_w == c.col_w * c.visible,
        c.scroll + c.visible < usize::MAX,
    ensures
        cells_of(spans@) == Seq::new(c.note_w as nat, |x: int| roll_cell_spec(t, *r, *c, tc, marks@, notes@, x)),
        maximal(spans@),
{
    let mut styles: Vec<Style> = Vec::new();
    let mut i: usize = 0;
    while i < notes.len()
        invariant
            i <= notes.len(),
            styles.len() == i,
            forall|k: int| 0 <= k < i ==> #[trigger] styles@[k] == note_style_spec(t, *r, tc, notes@[k].look),
        decreases notes.len() - i,
    {
        styles.push(note_style(t, r, tc, &notes[i].look));
        i += 1;
    }
    let mut cells: Vec<(char, Style)> = Vec::new();
    let mut x: usize = 0;
    while x < c.note_w
        invariant
            x <= c.note_w,
            c.note_w == c.col_w * c.visible,
            c.scroll + c.visible < usize::MAX,
            styles.len() == notes.len(),
            forall|k: int| 0 <= k < notes.len() ==> #[trigger] styles@[k] == note_style_spec(t, *r, tc, notes@[k].look),
            cells@ =~= Seq::new(x as nat, |k: int| roll_cell_spec(t, *r, *c, tc, marks@, notes@, k)),
        decreases c.note_w - x,
    {
        let cell = roll_cell(t, r, c, tc, marks, notes, &styles, x);
        cells.push(cell);
        x += 1;
    }
    merge_cells(&cells)
}

} // verus!
