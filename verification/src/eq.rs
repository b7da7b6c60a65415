//! The equaliser's strip of controls: the eight bands as columns with a
//! control to a row where the pane is wide, and as rows with the controls
//! across where it is not — dropping the slope, then the Q, then the
//! frequency before it would run off the edge, and scrolling so the band
//! under the cursor stays on the screen.

use vstd::prelude::*;

use crate::fx::{cell_style, cell_style_spec};
use crate::style::{bolded, colors, Style};
use crate::text::{concatenated, decimal, decimal_spec, left_aligned, left_aligned_spec, span_views, Span};
use crate::theme::{self, active, ActiveTheme};

verus! {

/// The equaliser's bands; the cursor's band past the last is the trim.
pub const BANDS: usize = 8;

/// The controls each band has.
pub const CONTROLS: usize = 6;

/// A control's name, in the equaliser's own order.
pub open spec fn control_name(c: int) -> Seq<char> {
    if c == 0 {
        "type"@
    } else if c == 1 {
        "freq"@
    } else if c == 2 {
        "gain"@
    } else if c == 3 {
        "q"@
    } else if c == 4 {
        "slope"@
    } else {
        "on"@
    }
}

fn control_name_of(c: usize) -> (s: &'static str)
    ensures
        s@ == control_name(c as int),
{
    if c == 0 {
        "type"
    } else if c == 1 {
        "freq"
    } else if c == 2 {
        "gain"
    } else if c == 3 {
        "q"
    } else if c == 4 {
        "slope"
    } else {
        "on"
    }
}

/// One band's six controls as the strip writes them, and which of them the
/// band's type uses.
pub struct BandCells {
    pub text: Vec<String>,
    pub live: Vec<bool>,
}

/// Where the strip's cursor is, and whether the control under it is held.
#[derive(Clone, Copy, Debug, PartialEq, Eq, Structural)]
pub struct EqCursor {
    pub band: usize,
    pub control: usize,
    pub locked: bool,
}

/// Every band has a text and a flag for each of its controls.
pub open spec fn cells_ok(cells: Seq<BandCells>) -> bool {
    &&& cells.len() == BANDS
    &&& forall|b: int| 0 <= b < BANDS ==> (#[trigger] cells[b]).text@.len() == CONTROLS && cells[b].live@.len() == CONTROLS
}

/// The controls the narrow strip shows in `width` columns: all six when
/// they fit, then without the slope, then without the Q, then without the
/// frequency. The gain never goes.
pub open spec fn narrow_columns(width: int) -> Seq<int> {
    if width >= 46 {
        seq![0, 1, 2, 3, 4, 5]
    } else if width >= 39 {
        seq![0, 1, 2, 3, 5]
    } else if width >= 32 {
        seq![0, 1, 2, 5]
    } else {
        seq![0, 2, 5]
    }
}

/// How many band rows the narrow strip has room for.
pub open spec fn visible_bands(height: int) -> int {
    if height - 2 >= 1 { height - 2 } else { 1 }
}

/// The first band row the narrow strip shows.
pub open spec fn narrow_first(band: int, height: int) -> int {
    let back = band - (visible_bands(height) - 1);
    let from = if back > 0 { back } else { 0 };
    if from < BANDS { from } else { BANDS as int }
}

/// The last band row it shows; the trim's row is the ninth.
pub open spec fn narrow_last(band: int, height: int) -> int {
    let last = narrow_first(band, height) + visible_bands(height) - 1;
    if last < BANDS { last } else { BANDS as int }
}

/// One band's row in the narrow strip: the caret and the band's number,
/// then its shown controls seven columns each; or the trim's row.
pub open spec fn narrow_row_spec(
    t: &ActiveTheme,
    cells: Seq<BandCells>,
    trim: Seq<char>,
    v: EqCursor,
    focused: bool,
    cols: Seq<int>,
    b: int,
) -> Seq<(Seq<char>, Style)> {
    let dim = colors(active(t).dim, active(t).bg);
    if b >= BANDS {
        seq![("trim"@, dim), (trim, cell_style_spec(t, v.band >= BANDS, v.locked, true, focused))]
    } else {
        let here = v.band == b;
        seq![(
            left_aligned_spec(seq![if here { '\u{25B8}' } else { ' ' }] + decimal_spec((b + 1) as nat), 4),
            if here && focused { colors(active(t).amber_bright, active(t).bg) } else { dim },
        )] + Seq::new(
            cols.len(),
            |i: int|
                (
                    left_aligned_spec(cells[b].text@[cols[i]]@, 7),
                    cell_style_spec(t, here && v.control == cols[i], v.locked, cells[b].live@[cols[i]], focused),
                ),
        )
    }
}

/// The narrow strip: a header naming the shown controls, then the band
/// rows in the window that holds the cursor's band.
pub open spec fn narrow_spec(
    t: &ActiveTheme,
    cells: Seq<BandCells>,
    trim: Seq<char>,
    v: EqCursor,
    width: int,
    height: int,
    focused: bool,
) -> Seq<Seq<(Seq<char>, Style)>> {
    let dim = colors(active(t).dim, active(t).bg);
    let cols = narrow_columns(width);
    let header = seq![(seq![' ', ' ', ' ', ' '], dim)] + Seq::new(
        cols.len(),
        |i: int| (left_aligned_spec(control_name(cols[i]), 7), dim),
    );
    let first = narrow_first(v.band as int, height);
    let count = narrow_last(v.band as int, height) - first + 1;
    seq![header] + Seq::new(count as nat, |k: int| narrow_row_spec(t, cells, trim, v, focused, cols, first + k))
}

/// The narrow strip keeps the cursor's band on the screen, always shows the
/// gain, and drops controls until they fit or only three are left.
pub proof fn lemma_narrow_strip_keeps_what_matters(band: int, width: int, height: int)
    requires
        0 <= band <= BANDS,
    ensures
        narrow_first(band, height) <= band <= narrow_last(band, height),
        narrow_columns(width).contains(2),
        4 + 7 * narrow_columns(width).len() <= width || narrow_columns(width).len() == 3,
{
    assert(narrow_columns(width).contains(2)) by {
        if width >= 46 {
            assert(narrow_columns(width)[2] == 2);
        } else if width >= 39 {
            assert(narrow_columns(width)[2] == 2);
        } else if width >= 32 {
            assert(narrow_columns(width)[2] == 2);
        } else {
            assert(narrow_columns(width)[1] == 2);
        }
    }
}

fn narrow_cols(width: usize) -> (cols: Vec<usize>)
    ensures
        cols@.len() == narrow_columns(width as int).len(),
        forall|i: int| 0 <= i < cols@.len() ==> cols@[i] == narrow_columns(width as int)[i],
{
    if width >= 46 {
        vec![0, 1, 2, 3, 4, 5]
    } else if width >= 39 {
        vec![0, 1, 2, 3, 5]
    } else if width >= 32 {
        vec![0, 1, 2, 5]
    } else {
        vec![0, 2, 5]
    }
}

fn narrow_row(
    t: &ActiveTheme,
    cells: &Vec<BandCells>,
    trim: &str,
    v: EqCursor,
    focused: bool,
    cols: &Vec<usize>,
    b: usize,
) -> (spans: Vec<Span>)
    requires
        cells_ok(cells@),
        b <= BANDS,
        forall|i: int| 0 <= i < cols@.len() ==> #[trigger] cols@[i] < CONTROLS,
    ensures
        span_views(spans@) == narrow_row_spec(t, cells@, trim@, v, focused, cols@.map_values(|c: usize| c as int), b as int),
{
    let ghost icols = cols@.map_values(|c: usize| c as int);
    if b >= BANDS {
        let spans = vec![
            Span::styled(String::from_str("trim"), theme::dim(t)),
            Span::styled(String::from_str(trim), cell_style(t, v.band >= BANDS, v.locked, true, focused)),
        ];
        assert(span_views(spans@) =~= narrow_row_spec(t, cells@, trim@, v, focused, icols, b as int));
        return spans;
    }
    let here = v.band == b;
    let mut mark = String::new();
    crate::text::push_char(&mut mark, if here { '\u{25B8}' } else { ' ' });
    let label = concatenated(mark.as_str(), decimal((b + 1) as u64).as_str());
    let mut spans = vec![Span::styled(
        left_aligned(label.as_str(), 4),
        if here && focused { theme::amber_bright(t) } else { theme::dim(t) },
    )];
    let ghost lead = span_views(spans@);
    let cell = &cells[b];
    let mut i: usize = 0;
    while i < cols.len()
        invariant
            i <= cols@.len(),
            b < BANDS,
            cells_ok(cells@),
            *cell == cells@[b as int],
            icols == cols@.map_values(|c: usize| c as int),
            forall|j: int| 0 <= j < cols@.len() ==> #[trigger] cols@[j] < CONTROLS,
            spans@.len() == 1 + i,
            span_views(spans@) == lead + Seq::new(
                i as nat,
                |j: int|
                    (
                        left_aligned_spec(cells@[b as int].text@[icols[j]]@, 7),
                        cell_style_spec(t, here && v.control == icols[j], v.locked, cells@[b as int].live@[icols[j]], focused),
                    ),
            ),
        decreases cols@.len() - i,
    {
        let c = cols[i];
        let ghost before = span_views(spans@);
        spans.push(Span::styled(
            left_aligned(cell.text[c].as_str(), 7),
            cell_style(t, here && v.control == c, v.locked, cell.live[c], focused),
        ));
        assert(span_views(spans@) =~= before.push(
            (
                left_aligned_spec(cells@[b as int].text@[icols[i as int]]@, 7),
                cell_style_spec(t, here && v.control == icols[i as int], v.locked, cells@[b as int].live@[icols[i as int]], focused),
            ),
        ));
        i += 1;
    }
    assert(lead =~= seq![(
        left_aligned_spec(seq![if here { '\u{25B8}' } else { ' ' }] + decimal_spec((b + 1) as nat), 4),
        if here && focused { colors(active(t).amber_bright, active(t).bg) } else { colors(active(t).dim, active(t).bg) },
    )]);
    assert(span_views(spans@) =~= narrow_row_spec(t, cells@, trim@, v, focused, icols, b as int));
    spans
}

/// Eight bands as rows, controls across: what an eighty-column terminal
/// gets. `trim` is the trim's value as written.
pub fn narrow_strip(
    t: &ActiveTheme,
    cells: &Vec<BandCells>,
    trim: &str,
    v: EqCursor,
    width: usize,
    height: usize,
    focused: bool,
) -> (lines: Vec<Vec<Span>>)
    requires
        cells_ok(cells@),
    ensures
        lines@.len() == narrow_spec(t, cells@, trim@, v, width as int, height as int, focused).len(),
        forall|i: int|
            0 <= i < lines@.len() ==> span_views(#[trigger] lines@[i]@) == narrow_spec(
                t,
                cells@,
                trim@,
                v,
                width as int,
                height as int,
                focused,
            )[i],
{
    let ghost want = narrow_spec(t, cells@, trim@, v, width as int, height as int, focused);
    let cols = narrow_cols(width);
    let ghost icols = cols@.map_values(|c: usize| c as int);
    assert(icols =~= narrow_columns(width as int));
    proof { reveal_strlit("    "); }
    let mut header = vec![Span::styled(String::from_str("    "), theme::dim(t))];
    let ghost lead = span_views(header@);
    let mut i: usize = 0;
    while i < cols.len()
        invariant
            i <= cols@.len(),
            icols == cols@.map_values(|c: usize| c as int),
            span_views(header@) == lead + Seq::new(
                i as nat,
                |j: int| (left_aligned_spec(control_name(icols[j]), 7), colors(active(t).dim, active(t).bg)),
            ),
        decreases cols@.len() - i,
    {
        let ghost before = span_views(header@);
        header.push(Span::styled(left_aligned(control_name_of(cols[i]), 7), theme::dim(t)));
        assert(span_views(header@) =~= before.push(
            (left_aligned_spec(control_name(icols[i as int]), 7), colors(active(t).dim, active(t).bg)),
        ));
        i += 1;
    }
    assert("    "@ =~= seq![' ', ' ', ' ', ' ']);
    let mut lines: Vec<Vec<Span>> = Vec::new();
    lines.push(header);
    assert(span_views(lines@[0]@) =~= want[0]);
    let visible = if height >= 3 { height - 2 } else { 1 };
    let back = if v.band >= visible - 1 { v.band - (visible - 1) } else { 0 };
    let first = if back < BANDS { back } else { BANDS };
    let last = if visible - 1 < BANDS - first { first + (visible - 1) } else { BANDS };
    assert(first == narrow_first(v.band as int, height as int));
    assert(last == narrow_last(v.band as int, height as int));
    let mut b = first;
    while b <= last
        invariant
            first <= b <= last + 1,
            last <= BANDS,
            first == narrow_first(v.band as int, height as int),
            last == narrow_last(v.band as int, height as int),
            cells_ok(cells@),
            icols == cols@.map_values(|c: usize| c as int),
            icols == narrow_columns(width as int),
            forall|j: int| 0 <= j < cols@.len() ==> #[trigger] cols@[j] < CONTROLS,
            want == narrow_spec(t, cells@, trim@, v, width as int, height as int, focused),
            lines@.len() == 1 + (b - first),
            forall|j: int| 0 <= j < lines@.len() ==> span_views(#[trigger] lines@[j]@) == want[j],
        decreases last + 1 - b,
    {
        let row = narrow_row(t, cells, trim, v, focused, &cols, b);
        assert(want[1 + (b - first)] == narrow_row_spec(t, cells@, trim@, v, focused, icols, b as int));
        lines.push(row);
        b += 1;
    }
    lines
}

/// The width of one band's column in the wide strip: what is left after
/// the label, shared by the eight bands and the trim, between five and nine.
pub open spec fn wide_cell(width: int) -> int {
    let share = (if width >= 6 { width - 6 } else { 0 }) / 9;
    if share < 5 { 5 } else if share > 9 { 9 } else { share }
}

/// The style of a band's or the trim's heading in the wide strip.
pub open spec fn heading_style(t: &ActiveTheme, here: bool) -> Style {
    if here { bolded(colors(active(t).amber_bright, active(t).bg)) } else { colors(active(t).dim, active(t).bg) }
}

/// The wide strip's header: the bands' numbers and the trim.
pub open spec fn wide_header_spec(t: &ActiveTheme, v: EqCursor, width: int, focused: bool) -> Seq<(Seq<char>, Style)> {
    let w = wide_cell(width);
    seq![(left_aligned_spec("band"@, 6), colors(active(t).dim, active(t).bg))] + Seq::new(
        BANDS as nat,
        |b: int| (left_aligned_spec(decimal_spec((b + 1) as nat), w as nat), heading_style(t, v.band == b && focused)),
    ) + seq![("trim"@, heading_style(t, v.band >= BANDS && focused))]
}

/// One control's row of the wide strip: its name, then each band's value,
/// with the trim on the gain row.
pub open spec fn wide_row_spec(
    t: &ActiveTheme,
    cells: Seq<BandCells>,
    trim: Seq<char>,
    v: EqCursor,
    width: int,
    focused: bool,
    c: int,
) -> Seq<(Seq<char>, Style)> {
    let w = wide_cell(width);
    seq![(left_aligned_spec(control_name(c), 6), colors(active(t).dim, active(t).bg))] + Seq::new(
        BANDS as nat,
        |b: int|
            (
                left_aligned_spec(cells[b].text@[c]@, w as nat),
                cell_style_spec(t, v.band == b && v.control == c, v.locked, cells[b].live@[c], focused),
            ),
    ) + if c == 2 {
        seq![(trim, cell_style_spec(t, v.band >= BANDS, v.locked, true, focused))]
    } else {
        Seq::empty()
    }
}

/// Eight bands as columns, one control per row.
pub open spec fn wide_spec(t: &ActiveTheme, cells: Seq<BandCells>, trim: Seq<char>, v: EqCursor, width: int, focused: bool) -> Seq<
    Seq<(Seq<char>, Style)>,
> {
    seq![wide_header_spec(t, v, width, focused)] + Seq::new(
        CONTROLS as nat,
        |c: int| wide_row_spec(t, cells, trim, v, width, focused, c),
    )
}

pub fn wide_strip(t: &ActiveTheme, cells: &Vec<BandCells>, trim: &str, v: EqCursor, width: usize, focused: bool) -> (lines: Vec<
    Vec<Span>,
>)
    requires
        cells_ok(cells@),
    ensures
        lines@.len() == 1 + CONTROLS,
        forall|i: int|
            0 <= i < lines@.len() ==> span_views(#[trigger] lines@[i]@) == wide_spec(t, cells@, trim@, v, width as int, focused)[i],
{
    let ghost want = wide_spec(t, cells@, trim@, v, width as int, focused);
    let share = (if width >= 6 { width - 6 } else { 0 }) / 9;
    let w = if share < 5 { 5 } else if share > 9 { 9 } else { share };
    assert(w == wide_cell(width as int));
    let mut header = vec![Span::styled(left_aligned("band", 6), theme::dim(t))];
    let ghost lead = span_views(header@);
    let mut b: usize = 0;
    while b < BANDS
        invariant
            b <= BANDS,
            w == wide_cell(width as int),
            span_views(header@) == lead + Seq::new(
                b as nat,
                |k: int| (left_aligned_spec(decimal_spec((k + 1) as nat), w as nat), heading_style(t, v.band == k && focused)),
            ),
        decreases BANDS - b,
    {
        let ghost before = span_views(header@);
        let s = if v.band == b && focused { theme::amber_bright(t).bold() } else { theme::dim(t) };
        header.push(Span::styled(left_aligned(decimal((b + 1) as u64).as_str(), w), s));
        assert(span_views(header@) =~= before.push(
            (left_aligned_spec(decimal_spec((b + 1) as nat), w as nat), heading_style(t, v.band == b && focused)),
        ));
        b += 1;
    }
    let ghost before = span_views(header@);
    header.push(Span::styled(
        String::from_str("trim"),
        if v.band >= BANDS && focused { theme::amber_bright(t).bold() } else { theme::dim(t) },
    ));
    assert(span_views(header@) =~= before.push(("trim"@, heading_style(t, v.band >= BANDS && focused))));
    let mut lines: Vec<Vec<Span>> = Vec::new();
    lines.push(header);
    assert(span_views(lines@[0]@) =~= want[0]);
    let mut c: usize = 0;
    while c < CONTROLS
        invariant
            c <= CONTROLS,
            w == wide_cell(width as int),
            cells_ok(cells@),
            want == wide_spec(t, cells@, trim@, v, width as int, focused),
            lines@.len() == 1 + c,
            forall|j: int| 0 <= j < lines@.len() ==> span_views(#[trigger] lines@[j]@) == want[j],
        decreases CONTROLS - c,
    {
        let mut row = vec![Span::styled(left_aligned(control_name_of(c), 6), theme::dim(t))];
        let ghost lead = span_views(row@);
        let mut b: usize = 0;
        while b < BANDS
            invariant
                b <= BANDS,
                c < CONTROLS,
                w == wide_cell(width as int),
                cells_ok(cells@),
                span_views(row@) == lead + Seq::new(
                    b as nat,
                    |k: int|
                        (
                            left_aligned_spec(cells@[k].text@[c as int]@, w as nat),
                            cell_style_spec(t, v.band == k && v.control == c, v.locked, cells@[k].live@[c as int], focused),
                        ),
                ),
            decreases BANDS - b,
        {
            let ghost before = span_views(row@);
            let cell = &cells[b];
            assert(cell.text@.len() == CONTROLS && cell.live@.len() == CONTROLS);
            row.push(Span::styled(
                left_aligned(cell.text[c].as_str(), w),
                cell_style(t, v.band == b && v.control == c, v.locked, cell.live[c], focused),
            ));
            assert(span_views(row@) =~= before.push(
                (
                    left_aligned_spec(cells@[b as int].text@[c as int]@, w as nat),
                    cell_style_spec(t, v.band == b && v.control == c, v.locked, cells@[b as int].live@[c as int], focused),
                ),
            ));
            b += 1;
        }
        let ghost body = span_views(row@);
        if c == 2 {
            row.push(Span::styled(String::from_str(trim), cell_style(t, v.band >= BANDS, v.locked, true, focused)));
            assert(span_views(row@) =~= body + seq![(trim@, cell_style_spec(t, v.band >= BANDS, v.locked, true, focused))]);
        } else {
            assert(body =~= body + Seq::<(Seq<char>, Style)>::empty());
        }
        assert(span_views(row@) =~= wide_row_spec(t, cells@, trim@, v, width as int, focused, c as int));
        lines.push(row);
        c += 1;
    }
    lines
}

} // verus!
