//! The automation lane under the piano roll: a label row naming the
//! controller stream, then rows of bars whose height is the controller's
//! value in each column, on the note grid's own columns so a point sits
//! under the notes it plays with.

use vstd::prelude::*;

use crate::style::{bolded, colors, on, Color, Style};
use crate::text::{
    cells_of, char_string, concatenated, decimal, decimal_spec, maximal, merge_cells, repeat_char, repeated,
    right_aligned, right_aligned_spec, span_views, Span,
};
use crate::theme::{self, active, blend_spec, lighten_spec, ActiveTheme};

verus! {

/// Rows the lane's bars get, below its one label row.
pub const LANE_ROWS: usize = 6;

/// The lane's heading: which stream it draws, and which of several it is.
pub open spec fn lane_hint_spec(label: Seq<char>, lane: int, count: int) -> Seq<char> {
    if count > 1 {
        let shown = if lane <= count - 1 { lane } else { count - 1 };
        "auto "@ + label + " ("@ + decimal_spec((shown + 1) as nat) + "/"@ + decimal_spec(count as nat) + ")"@
    } else {
        "auto "@ + label
    }
}

/// The label row: the heading right-aligned in the key column, the
/// separator, and while the lane has the keys, what they do.
pub open spec fn label_row_spec(t: &ActiveTheme, label: Seq<char>, lane: int, count: int, active_lane: bool, key_w: int) -> Seq<(Seq<char>, Style)> {
    let w = if key_w >= 1 { key_w - 1 } else { 0 };
    seq![
        (right_aligned_spec(lane_hint_spec(label, lane, count), w as nat) + seq![' '],
            if active_lane { bolded(colors(active(t).amber_bright, active(t).bg)) } else { colors(active(t).dim, active(t).bg) }),
        (seq!['\u{2502}'], colors(active(t).border, active(t).bg)),
        (if active_lane { " jk draw \u{00b7} [ ] lane \u{00b7} d clear"@ } else { Seq::empty() }, colors(active(t).dim, active(t).bg)),
    ]
}

pub fn label_row(t: &ActiveTheme, label: &str, lane: usize, count: usize, active_lane: bool, key_w: usize) -> (spans: Vec<Span>)
    requires
        count >= 1,
        count < u64::MAX,
    ensures
        span_views(spans@) == label_row_spec(t, label@, lane as int, count as int, active_lane, key_w as int),
{
    let head = concatenated("auto ", label);
    let hint = if count > 1 {
        let shown = if lane <= count - 1 { lane } else { count - 1 };
        let a = concatenated(head.as_str(), " (");
        let n = decimal((shown + 1) as u64);
        let b = concatenated(a.as_str(), n.as_str());
        let c = concatenated(b.as_str(), "/");
        let m = decimal(count as u64);
        let d = concatenated(c.as_str(), m.as_str());
        concatenated(d.as_str(), ")")
    } else {
        head
    };
    let w = if key_w >= 1 { key_w - 1 } else { 0 };
    let padded = right_aligned(hint.as_str(), w);
    let mut spans: Vec<Span> = Vec::new();
    spans.push(Span::styled(
        concatenated(padded.as_str(), " "),
        if active_lane { theme::amber_bright(t).bold() } else { theme::dim(t) },
    ));
    spans.push(Span::styled(char_string('\u{2502}'), theme::border_style(t)));
    spans.push(Span::styled(
        if active_lane { String::from_str(" jk draw \u{00b7} [ ] lane \u{00b7} d clear") } else { String::new() },
        theme::dim(t),
    ));
    proof {
        reveal_strlit(" ");
    }
    assert(span_views(spans@) =~~= label_row_spec(t, label@, lane as int, count as int, active_lane, key_w as int));
    spans
}

/// The top of the band row `r` of `rows` stands for.
pub open spec fn band_hi(r: int, rows: int) -> int {
    127 - r * 128 / rows
}

/// The bottom of it: the next row's top, and nothing under the last row.
pub open spec fn band_lo(r: int, rows: int) -> int {
    let below = (r + 1) * 128 / rows;
    if below <= 127 { 127 - below } else { 0 }
}

/// A value fills every row down from the one its band is in: the bars are
/// solid from the bottom, and every value, silence included, lights the
/// bottom row.
pub proof fn lemma_bars_fill_from_the_bottom(v: int, r1: int, r2: int, rows: int)
    requires
        rows >= 1,
        0 <= r1 <= r2 < rows,
        0 <= v <= 127,
    ensures
        v >= band_lo(r1, rows) ==> v >= band_lo(r2, rows),
        v >= band_lo(rows - 1, rows),
{
    assert((r1 + 1) * 128 / rows <= (r2 + 1) * 128 / rows) by (nonlinear_arith)
        requires
            rows >= 1,
            0 <= r1 <= r2,
    ;
    assert(rows * 128 / rows == 128) by (nonlinear_arith)
        requires
            rows >= 1,
    ;
}

/// Where the playhead is among the lane's columns: its column on the clip's
/// grid, less the scroll, while the transport plays inside the clip and that
/// column is on the screen.
pub open spec fn play_column_spec(
    playing: bool,
    position: int,
    start: int,
    length: int,
    col_count: int,
    scroll: int,
    visible: int,
) -> Option<usize> {
    let pos = position - start;
    if playing && length > 0 && 0 <= pos < length {
        let c = pos * col_count / length;
        if scroll <= c && c - scroll < visible { Some((c - scroll) as usize) } else { None }
    } else {
        None
    }
}

pub fn play_column(
    playing: bool,
    position: i64,
    start: i64,
    length: i64,
    col_count: usize,
    scroll: usize,
    visible: usize,
) -> (col: Option<usize>)
    requires
        i64::MIN <= position - start <= i64::MAX,
        length as int * col_count as int <= i64::MAX,
    ensures
        col == play_column_spec(playing, position as int, start as int, length as int, col_count as int, scroll as int, visible as int),
{
    if !playing || length <= 0 {
        return None;
    }
    let pos = position - start;
    if pos < 0 || pos >= length {
        return None;
    }
    assert(col_count as int <= length as int * (col_count as int)) by (nonlinear_arith)
        requires
            length >= 1,
            col_count >= 0,
    ;
    assert(pos as int * (col_count as int) <= length as int * (col_count as int)) by (nonlinear_arith)
        requires
            0 <= pos <= length,
            col_count >= 0,
    ;
    assert(0 <= pos as int * (col_count as int)) by (nonlinear_arith)
        requires
            0 <= pos,
            col_count >= 0,
    ;
    let wide = col_count as i64;
    assert(wide as int == col_count as int);
    let c = pos * wide / length;
    assert(c as int <= pos as int * (wide as int) && c >= 0) by (nonlinear_arith)
        requires
            c as int == (pos as int) * (wide as int) / (length as int),
            length >= 1,
            pos as int * (wide as int) >= 0,
    ;
    let cu = c as u64;
    if (scroll as u64) <= cu && cu - (scroll as u64) < visible as u64 {
        Some((cu - scroll as u64) as usize)
    } else {
        None
    }
}

/// The glyph and colour one column of bar row `r` shows for a value: the
/// value's own band wears a cap, the bands under it are solid, and a column
/// with no value is empty.
pub open spec fn bar_cell_spec(t: &ActiveTheme, value: Option<u8>, r: int, rows: int) -> (char, Color) {
    let lo = band_lo(r, rows);
    let hi = band_hi(r, rows);
    match value {
        Some(v) => if lo <= v <= hi {
            ('\u{2584}', active(t).amber_bright)
        } else if v >= lo {
            ('\u{2588}', active(t).amber)
        } else {
            (' ', active(t).dim)
        },
        None => (' ', active(t).dim),
    }
}

/// The cells of bar row `r`: each visible column `col_w` cells wide, on the
/// playhead's background in its column and the cursor's while the lane has
/// the keys, then the background out to the note area's width.
pub open spec fn bar_row_spec(
    t: &ActiveTheme,
    values: Seq<Option<u8>>,
    r: int,
    rows: int,
    col_w: int,
    note_w: int,
    cursor: Option<usize>,
    playhead: Option<usize>,
    active_lane: bool,
) -> Seq<(char, Style)> {
    let bars = values.len() * col_w;
    let total = if bars >= note_w { bars } else { note_w };
    Seq::new(total as nat, |x: int| if x < bars {
        let c = x / col_w;
        let (ch, fg) = bar_cell_spec(t, values[c], r, rows);
        let bg = if playhead == Some(c as usize) {
            blend_spec(active(t).bg, Color::Rgb(255, 200, 50), 20)
        } else if cursor == Some(c as usize) && active_lane {
            lighten_spec(active(t).bg, 8)
        } else {
            active(t).bg
        };
        (ch, colors(fg, bg))
    } else {
        (' ', on(active(t).bg))
    })
}

fn bar_cell(t: &ActiveTheme, value: Option<u8>, r: usize, rows: usize) -> (cell: (char, Color))
    requires
        r < rows,
        rows < u64::MAX / 256,
    ensures
        cell == bar_cell_spec(t, value, r as int, rows as int),
{
    assert((r as int) * 128 / (rows as int) <= 127 && (r as int + 1) * 128 / (rows as int) <= 128) by (nonlinear_arith)
        requires
            r < rows,
    ;
    assert((r as int + 1) * 128 <= (rows as int) * 128) by (nonlinear_arith)
        requires
            r < rows,
    ;
    let hi: u64 = 127 - (r as u64 * 128 / rows as u64);
    let below = (r as u64 + 1) * 128 / rows as u64;
    let lo: u64 = if below <= 127 { 127 - below } else { 0 };
    match value {
        Some(v) => if lo <= v as u64 && v as u64 <= hi {
            ('\u{2584}', theme::amber_bright_val(t))
        } else if v as u64 >= lo {
            ('\u{2588}', theme::amber_val(t))
        } else {
            (' ', theme::dim_color_val(t))
        },
        None => (' ', theme::dim_color_val(t)),
    }
}

/// One bar row of the lane: a blank key column, the separator, and the
/// cells `bar_row_spec` states merged into runs of one style.
pub fn bar_row(
    t: &ActiveTheme,
    values: &Vec<Option<u8>>,
    r: usize,
    rows: usize,
    col_w: usize,
    note_w: usize,
    key_w: usize,
    cursor: Option<usize>,
    playhead: Option<usize>,
    active_lane: bool,
) -> (spans: Vec<Span>)
    requires
        r < rows,
        rows < u64::MAX / 256,
        values.len() * col_w <= usize::MAX,
    ensures
        spans@.len() >= 2,
        (spans@[0].text@, spans@[0].style) == (repeated(' ', key_w as nat), on(active(t).bg)),
        (spans@[1].text@, spans@[1].style) == (seq!['\u{2502}'], colors(active(t).border, active(t).bg)),
        cells_of(spans@.subrange(2, spans@.len() as int))
            == bar_row_spec(t, values@, r as int, rows as int, col_w as int, note_w as int, cursor, playhead, active_lane),
        maximal(spans@.subrange(2, spans@.len() as int)),
{
    let ghost want = bar_row_spec(t, values@, r as int, rows as int, col_w as int, note_w as int, cursor, playhead, active_lane);
    let bars = values.len() * col_w;
    let mut cells: Vec<(char, Style)> = Vec::new();
    let mut c: usize = 0;
    while c < values.len()
        invariant
            c <= values.len(),
            r < rows,
            rows < u64::MAX / 256,
            bars == values.len() * col_w,
            values.len() * col_w <= usize::MAX,
            cells@.len() == c * col_w,
            forall|x: int| 0 <= x < cells@.len() ==> #[trigger] cells@[x] == want[x],
            want == bar_row_spec(t, values@, r as int, rows as int, col_w as int, note_w as int, cursor, playhead, active_lane),
        decreases values.len() - c,
    {
        let (ch, fg) = bar_cell(t, values[c], r, rows);
        let bg = if playhead == Some(c) {
            theme::playhead_bg(t)
        } else if cursor == Some(c) && active_lane {
            theme::col_highlight_bg(t)
        } else {
            theme::bg_val(t)
        };
        let cell = (ch, Style::new().fg(fg).bg(bg));
        assert((c + 1) * col_w <= values.len() * col_w) by (nonlinear_arith)
            requires
                c < values.len(),
        ;
        let mut k: usize = 0;
        while k < col_w
            invariant
                k <= col_w,
                c < values.len(),
                r < rows,
                rows < u64::MAX / 256,
                (c + 1) * col_w <= values.len() * col_w,
                bars == values.len() * col_w,
                cells@.len() == c * col_w + k,
                forall|x: int| 0 <= x < cells@.len() ==> #[trigger] cells@[x] == want[x],
                want == bar_row_spec(t, values@, r as int, rows as int, col_w as int, note_w as int, cursor, playhead, active_lane),
                cell == {
                    let (ch, fg) = bar_cell_spec(t, values@[c as int], r as int, rows as int);
                    let bg = if playhead == Some(c) {
                        blend_spec(active(t).bg, Color::Rgb(255, 200, 50), 20)
                    } else if cursor == Some(c) && active_lane {
                        lighten_spec(active(t).bg, 8)
                    } else {
                        active(t).bg
                    };
                    (ch, colors(fg, bg))
                },
            decreases col_w - k,
        {
            let ghost x = cells@.len() as int;
            assert(x / (col_w as int) == c) by (nonlinear_arith)
                requires
                    x == c * col_w + k,
                    k < col_w,
            ;
            assert(x < bars) by (nonlinear_arith)
                requires
                    x == c * col_w + k,
                    k < col_w,
                    (c + 1) * col_w <= bars,
            ;
            cells.push(cell);
            k += 1;
        }
        assert((c + 1) * col_w == c * col_w + col_w) by (nonlinear_arith);
        c += 1;
    }
    assert(cells@.len() == bars) by (nonlinear_arith)
        requires
            cells@.len() == c * col_w,
            c == values.len(),
            bars == values.len() * col_w,
    ;
    while cells.len() < note_w
        invariant
            bars == values.len() * col_w,
            cells@.len() >= bars,
            cells@.len() <= (if bars >= note_w { bars as int } else { note_w as int }),
            want.len() == (if bars >= note_w { bars as int } else { note_w as int }),
            forall|x: int| 0 <= x < cells@.len() ==> #[trigger] cells@[x] == want[x],
            want == bar_row_spec(t, values@, r as int, rows as int, col_w as int, note_w as int, cursor, playhead, active_lane),
        decreases note_w - cells.len(),
    {
        let ghost before = cells@;
        cells.push((' ', theme::bg(t)));
        proof {
            assert forall|x: int| 0 <= x < cells@.len() implies #[trigger] cells@[x] == want[x] by {
                if x < before.len() {
                    assert(cells@[x] == before[x]);
                }
            }
        }
    }
    assert(cells@ =~= want);
    let mut spans: Vec<Span> = Vec::new();
    spans.push(Span::styled(repeat_char(' ', key_w), theme::bg(t)));
    spans.push(Span::styled(char_string('\u{2502}'), theme::border_style(t)));
    let mut merged = merge_cells(&cells);
    let ghost head = spans@;
    let ghost tail = merged@;
    spans.append(&mut merged);
    assert(spans@.subrange(2, spans@.len() as int) =~= tail);
    spans
}

} // verus!
