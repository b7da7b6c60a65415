//! A recording seen as columns: which slice of the file each column of the
//! picture reduces, which column a frame falls in, and the ruler under the
//! waveform that carries the two markers.

use vstd::prelude::*;

use crate::style::{colors, Style};
use crate::text::{char_string, concatenated, right_aligned, right_aligned_spec, span_views, Span};
use crate::theme::{self, active, ActiveTheme};

verus! {

/// The column a frame falls in, on a picture `width` columns wide of a
/// recording `frames` long. A frame past the end counts as the end.
pub open spec fn column_spec(frame: u64, frames: u64, width: usize) -> int {
    let f = if frame <= frames { frame as int } else { frames as int };
    let n = if frames >= 1 { frames as int } else { 1 };
    (f * width) / n
}

proof fn lemma_column_bounded(frame: u64, frames: u64, width: usize)
    ensures
        0 <= column_spec(frame, frames, width) <= width,
{
    let f = if frame <= frames { frame as int } else { frames as int };
    let n = if frames >= 1 { frames as int } else { 1 };
    assert(0 <= f <= n);
    assert(0 <= f * width <= n * width) by (nonlinear_arith)
        requires
            0 <= f <= n,
            width >= 0,
    ;
    assert((f * width) / n <= width) by (nonlinear_arith)
        requires
            0 <= f * width <= n * width,
            n >= 1,
    ;
    assert(0 <= (f * width) / n) by (nonlinear_arith)
        requires
            0 <= f * width,
            n >= 1,
    ;
}

/// The column a frame falls in. The exclusive end of a region lands one past
/// the last column; the caller clamps.
pub fn column_of(frame: u64, frames: u64, width: usize) -> (c: usize)
    requires
        frames as int * width as int <= u64::MAX,
    ensures
        c == column_spec(frame, frames, width),
        c <= width,
{
    proof {
        lemma_column_bounded(frame, frames, width);
    }
    let f = if frame <= frames { frame } else { frames };
    let n = if frames >= 1 { frames } else { 1 };
    assert(f as int * width as int <= frames as int * width as int) by (nonlinear_arith)
        requires
            f <= frames,
    ;
    let wide = width as u64;
    let c = (f * wide) / n;
    c as usize
}

/// The first frame of column `column`'s slice of a recording `frames` long
/// drawn `width` columns wide.
pub open spec fn slice_start(column: int, frames: int, width: int) -> int {
    column * frames / width
}

/// The slice of the recording one column of the picture stands for: from
/// its share of the frames up to the next column's share, and never empty,
/// so a recording shorter than the picture still gives every column a frame.
pub open spec fn slice_spec(column: int, frames: int, width: int) -> (int, int) {
    let lo = slice_start(column, frames, width);
    let next = slice_start(column + 1, frames, width);
    (lo, if next >= lo + 1 { next } else { lo + 1 })
}

pub fn frame_slice(column: usize, frames: u64, width: usize) -> (slice: (u64, u64))
    requires
        column < width,
        frames >= 1,
        width as int * frames as int <= u64::MAX,
    ensures
        slice.0 == slice_spec(column as int, frames as int, width as int).0,
        slice.1 == slice_spec(column as int, frames as int, width as int).1,
        slice.0 < frames,
{
    let c = column as u64;
    let w = width as u64;
    assert(c as int * frames as int <= w as int * frames as int) by (nonlinear_arith)
        requires
            c < w,
    ;
    assert((c as int + 1) * frames as int <= w as int * frames as int) by (nonlinear_arith)
        requires
            c < w,
    ;
    assert((c as int) * (frames as int) / (w as int) < (frames as int)) by (nonlinear_arith)
        requires
            c < w,
            frames >= 1,
    ;
    let lo = c * frames / w;
    let next = (c + 1) * frames / w;
    let hi = if next >= lo + 1 { next } else { lo + 1 };
    (lo, hi)
}

/// Read the picture's columns in order and the slices they stand for tile
/// the recording, when it has at least a frame for each column: the first
/// starts at the first frame, each starts where the one before it ended,
/// and the last ends at the last frame.
pub proof fn lemma_slices_tile(frames: int, width: int, column: int)
    requires
        1 <= width <= frames,
        0 <= column < width,
    ensures
        slice_spec(0, frames, width).0 == 0,
        slice_spec(column, frames, width).1 == slice_start(column + 1, frames, width),
        slice_spec(width - 1, frames, width).1 == frames,
{
    assert(column * frames + frames == (column + 1) * frames) by (nonlinear_arith);
    assert(column * frames / width + 1 <= (column * frames + frames) / width) by (nonlinear_arith)
        requires
            1 <= width <= frames,
            0 <= column,
    ;
    assert(((width - 1) + 1) * frames / width == frames) by (nonlinear_arith)
        requires
            width >= 1,
    ;
    assert((width - 1) * frames / width + 1 <= frames) by (nonlinear_arith)
        requires
            1 <= width <= frames,
    ;
    assert((width - 1) * frames + frames == ((width - 1) + 1) * frames) by (nonlinear_arith);
    assert((width - 1) * frames / width + 1 <= ((width - 1) * frames + frames) / width) by (nonlinear_arith)
        requires
            1 <= width <= frames,
    ;
}

/// Where the ruler puts its two markers: the start at the region's first
/// frame and the end at its last, each clamped into the picture; two markers
/// in one column would read as one, so the end moves off the start — right
/// when it can, else left.
pub open spec fn markers_spec(start_frame: u64, end_frame: u64, frames: u64, width: usize) -> (int, int) {
    let last = if width >= 1 { width - 1 } else { 0int };
    let s0 = column_spec(start_frame, frames, width);
    let e0 = column_spec(if end_frame >= 1 { (end_frame - 1) as u64 } else { 0u64 }, frames, width);
    let start = if s0 <= last { s0 } else { last };
    let end = if e0 <= last { e0 } else { last };
    if end == start && width > 1 {
        (start, if start + 1 < width { start + 1 } else { start - 1 })
    } else {
        (start, end)
    }
}

/// What the ruler draws in one column.
#[derive(Clone, Copy, Debug, PartialEq, Eq, Structural)]
pub enum RulerCell {
    /// `[`, where the region starts.
    Start,
    /// `]`, where it ends.
    End,
    /// `─`, inside the region.
    Inside,
    /// `·`, in a cut end.
    Outside,
}

pub open spec fn ruler_cell_spec(column: int, start: int, end: int) -> RulerCell {
    let left = if start <= end { start } else { end };
    let right = if start <= end { end } else { start };
    if column == start {
        RulerCell::Start
    } else if column == end {
        RulerCell::End
    } else if left < column < right {
        RulerCell::Inside
    } else {
        RulerCell::Outside
    }
}

/// The glyph and style a ruler cell is drawn in.
pub open spec fn ruler_glyph(cell: RulerCell, lit: Style, cut: Style, mark: Style) -> (char, Style) {
    match cell {
        RulerCell::Start => ('[', mark),
        RulerCell::End => (']', mark),
        RulerCell::Inside => ('\u{2500}', lit),
        RulerCell::Outside => ('\u{00b7}', cut),
    }
}

/// Two markers, never one: on a ruler more than a column wide the start and
/// the end sit in different columns, both inside the picture.
pub proof fn lemma_two_markers(start_frame: u64, end_frame: u64, frames: u64, width: usize)
    requires
        width > 1,
    ensures
        ({
            let (s, e) = markers_spec(start_frame, end_frame, frames, width);
            &&& s != e
            &&& 0 <= s < width
            &&& 0 <= e < width
        }),
{
    lemma_column_bounded(start_frame, frames, width);
    lemma_column_bounded(if end_frame >= 1 { (end_frame - 1) as u64 } else { 0u64 }, frames, width);
}

/// Column `c` of a drawn ruler holds what the ruler puts there.
pub open spec fn ruler_drawn(span: Span, c: int, start: int, end: int, lit: Style, cut: Style, mark: Style) -> bool {
    let (g, st) = ruler_glyph(ruler_cell_spec(c, start, end), lit, cut, mark);
    span.text@ == seq![g] && span.style == st
}

/// The ruler under the waveform, carrying the two markers, one span a column.
pub fn marker_row(
    region: (u64, u64),
    frames: u64,
    width: usize,
    lit: Style,
    cut: Style,
    mark: Style,
) -> (spans: Vec<Span>)
    requires
        frames as int * width as int <= u64::MAX,
    ensures
        spans.len() == width,
        forall|c: int| 0 <= c < width ==> #[trigger] ruler_drawn(
            spans@[c],
            c,
            markers_spec(region.0, region.1, frames, width).0,
            markers_spec(region.0, region.1, frames, width).1,
            lit,
            cut,
            mark,
        ),
{
    let last = if width >= 1 { width - 1 } else { 0 };
    let s0 = column_of(region.0, frames, width);
    let e0 = column_of(if region.1 >= 1 { region.1 - 1 } else { 0 }, frames, width);
    let start = if s0 <= last { s0 } else { last };
    let mut end = if e0 <= last { e0 } else { last };
    if end == start && width > 1 {
        end = if start + 1 < width { start + 1 } else { start - 1 };
    }
    assert(markers_spec(region.0, region.1, frames, width) == (start as int, end as int));
    let left = if start <= end { start } else { end };
    let right = if start <= end { end } else { start };
    let mut spans: Vec<Span> = Vec::new();
    let mut c: usize = 0;
    while c < width
        invariant
            c <= width,
            spans.len() == c,
            left == (if start <= end { start } else { end }),
            right == (if start <= end { end } else { start }),
            forall|k: int| 0 <= k < c ==> #[trigger] ruler_drawn(spans@[k], k, start as int, end as int, lit, cut, mark),
        decreases width - c,
    {
        let span = if c == start {
            Span::styled(char_string('['), mark)
        } else if c == end {
            Span::styled(char_string(']'), mark)
        } else if c > left && c < right {
            Span::styled(char_string('\u{2500}'), lit)
        } else {
            Span::styled(char_string('\u{00b7}'), cut)
        };
        let ghost before = spans@;
        spans.push(span);
        proof {
            assert forall|k: int| 0 <= k < c + 1 implies #[trigger] ruler_drawn(spans@[k], k, start as int, end as int, lit, cut, mark) by {
                if k < c {
                    assert(spans@[k] == before[k]);
                }
            }
        }
        c += 1;
    }
    spans
}

/// The column the pad panel's knobs start in, which the small picture
/// under them lines up with.
pub const MINI_INDENT: usize = 9;

/// The narrowest picture worth drawing under the panel.
pub const MINI_MIN_PICTURE: usize = 12;

/// How wide the small picture under the panel is in a column `width` wide:
/// what the gutter leaves, or no picture where that is under a dozen
/// columns.
pub open spec fn mini_width_spec(width: int) -> Option<int> {
    if width < MINI_INDENT + MINI_MIN_PICTURE { None } else { Some(width - MINI_INDENT) }
}

pub fn mini_width(width: usize) -> (w: Option<usize>)
    ensures
        match mini_width_spec(width as int) {
            Some(x) => w == Some(x as usize),
            None => w is None,
        },
{
    if width < MINI_INDENT + MINI_MIN_PICTURE { None } else { Some(width - MINI_INDENT) }
}

/// The gutter's label on row `k` of the small picture: what the picture
/// is, and `rev` where the region plays backwards.
pub open spec fn mini_label(t: &ActiveTheme, k: int, reverse: bool) -> (Seq<char>, Style) {
    if k == 0 {
        ("wave"@, colors(active(t).dim, active(t).bg))
    } else if k == 1 {
        (if reverse { "rev"@ } else { ""@ }, colors(active(t).amber, active(t).bg))
    } else {
        (""@, colors(active(t).dim, active(t).bg))
    }
}

/// The small picture's rows with the gutter in front of each: the label
/// right-aligned in the indent and a space, then the row.
pub open spec fn mini_spec(t: &ActiveTheme, rows: Seq<Seq<(Seq<char>, Style)>>, reverse: bool) -> Seq<Seq<(Seq<char>, Style)>> {
    let n = if rows.len() < 3 { rows.len() as int } else { 3 };
    Seq::new(
        n as nat,
        |k: int|
            seq![(right_aligned_spec(mini_label(t, k, reverse).0, 8) + seq![' '], mini_label(t, k, reverse).1)] + rows[k],
    )
}

/// The small picture under the pad panel: the two rows of waveform and the
/// marker ruler (`rows`), each behind its gutter label.
pub fn mini_lines(t: &ActiveTheme, rows: Vec<Vec<Span>>, reverse: bool) -> (lines: Vec<Vec<Span>>)
    ensures
        lines@.len() == mini_spec(t, rows@.map_values(|r: Vec<Span>| span_views(r@)), reverse).len(),
        forall|k: int|
            0 <= k < lines@.len() ==> span_views(#[trigger] lines@[k]@) == mini_spec(
                t,
                rows@.map_values(|r: Vec<Span>| span_views(r@)),
                reverse,
            )[k],
{
    proof {
        reveal_strlit(" ");
    }
    let ghost want = mini_spec(t, rows@.map_values(|r: Vec<Span>| span_views(r@)), reverse);
    let n = if rows.len() < 3 { rows.len() } else { 3 };
    let mut lines: Vec<Vec<Span>> = Vec::new();
    let mut rows = rows;
    let ghost all = rows@;
    let mut k: usize = 0;
    while k < n
        invariant
            k <= n,
            n == (if all.len() < 3 { all.len() } else { 3 }),
            rows@ == all.subrange(k as int, all.len() as int),
            want == mini_spec(t, all.map_values(|r: Vec<Span>| span_views(r@)), reverse),
            " "@ == seq![' '],
            lines@.len() == k,
            forall|j: int| 0 <= j < k ==> span_views(#[trigger] lines@[j]@) == want[j],
        decreases n - k,
    {
        let (label, style) = if k == 0 {
            ("wave", theme::dim(t))
        } else if k == 1 {
            (if reverse { "rev" } else { "" }, theme::amber(t))
        } else {
            ("", theme::dim(t))
        };
        let gutter = right_aligned(label, 8);
        let mut line = vec![Span::styled(concatenated(gutter.as_str(), " "), style)];
        let ghost head = span_views(line@);
        let mut row = rows.remove(0);
        assert(row == all[k as int]);
        let ghost body = span_views(row@);
        line.append(&mut row);
        assert(span_views(line@) =~= head + body);
        assert(rows@ =~= all.subrange(k as int + 1, all.len() as int));
        assert(span_views(line@) =~= want[k as int]);
        lines.push(line);
        k += 1;
    }
    lines
}

} // verus!
