//! The instrument's controls, in the two places they are drawn: the full
//! panel in the `[inst]` tab, cells filled down each column and then across,
//! paged when they do not fit; and the narrow list in the clip view's left
//! column, scrolled to keep the cursor in sight.
//!
//! What a control is called and what it reads belongs to the instrument and
//! is handed in; where each goes and how it is drawn is decided here.

use vstd::prelude::*;

use crate::style::{bolded, colors, on, Style};
use crate::text::{
    char_count, char_string, concatenated, decimal, decimal_spec, left_aligned, left_aligned_spec, repeat_char,
    repeated, span_views, Span,
};
use crate::theme::{self, active, ActiveTheme};

verus! {

/// How wide one control's cell is: the name, its value, and a space to keep
/// two columns of them apart. Twenty-six puts two in the pane an
/// eighty-column terminal leaves and three in a hundred and twenty.
pub const INST_CELL_W: usize = 26;

/// The width every instrument's control names are pinned to.
pub const NAME_W: usize = 8;

/// The indicator and its spaces.
pub const GUTTER: usize = 3;

/// How the panel lays out `count` controls.
#[derive(Clone, Copy, Debug, PartialEq, Eq, Structural)]
pub struct InstLayout {
    pub cell_w: usize,
    pub columns: usize,
    pub rows: usize,
    pub per_page: usize,
    /// The cursor, held to the last control.
    pub cursor: usize,
    pub pages: usize,
    pub page: usize,
    /// The first control on the page shown.
    pub first: usize,
}

/// The layout of a panel `w` by `h` over `count` controls: cells of
/// twenty-six columns or the whole width, one row under the header, the
/// page the cursor is on.
pub open spec fn inst_layout_spec(w: int, h: int, count: int, cursor: int) -> InstLayout {
    let cell_w = if INST_CELL_W <= w { INST_CELL_W as int } else { w };
    let columns = if w / cell_w >= 1 { w / cell_w } else { 1 };
    let rows = if h >= 2 { h - 1 } else { 1 };
    let per_page = columns * rows;
    let cur = if cursor <= count - 1 { cursor } else { count - 1 };
    let pages = count / per_page + if count % per_page == 0 { 0int } else { 1int };
    let page = cur / per_page;
    InstLayout {
        cell_w: cell_w as usize,
        columns: columns as usize,
        rows: rows as usize,
        per_page: per_page as usize,
        cursor: cur as usize,
        pages: pages as usize,
        page: page as usize,
        first: (page * per_page) as usize,
    }
}

pub fn inst_layout(w: usize, h: usize, count: usize, cursor: usize) -> (l: InstLayout)
    requires
        1 <= w <= 65535,
        1 <= h <= 65535,
        1 <= count < u32::MAX,
    ensures
        l == inst_layout_spec(w as int, h as int, count as int, cursor as int),
        l.per_page == l.columns * l.rows,
        l.per_page >= 1,
        l.first <= l.cursor < l.first + l.per_page,
        l.cursor < count,
        l.page < l.pages,
{
    let cell_w = if INST_CELL_W <= w { INST_CELL_W } else { w };
    let columns = if w / cell_w >= 1 { w / cell_w } else { 1 };
    let rows = if h >= 2 { h - 1 } else { 1 };
    assert(columns <= w) by (nonlinear_arith)
        requires
            cell_w >= 1,
            columns == (if w / cell_w >= 1 { w / cell_w } else { 1 }),
            w >= 1,
    ;
    assert(columns * rows <= 65535 * 65535 && columns * rows >= 1) by (nonlinear_arith)
        requires
            1 <= columns <= 65535,
            1 <= rows <= 65535,
    ;
    let per_page = columns * rows;
    let cur = if cursor <= count - 1 { cursor } else { count - 1 };
    assert(count / per_page <= count) by (nonlinear_arith)
        requires
            per_page >= 1,
    ;
    let pages = count / per_page + if count % per_page == 0 { 0 } else { 1 };
    let page = cur / per_page;
    assert(page * per_page <= cur < page * per_page + per_page) by (nonlinear_arith)
        requires
            page == cur / per_page,
            per_page >= 1,
    ;
    assert(page < pages) by (nonlinear_arith)
        requires
            page == cur / per_page,
            pages == count / per_page + if count % per_page == 0 { 0int } else { 1int },
            cur < count,
            per_page >= 1,
    ;
    let first = page * per_page;
    InstLayout { cell_w, columns, rows, per_page, cursor: cur, pages, page, first }
}

/// The control in a cell of the page shown: down each column, then across.
pub open spec fn cell_index_spec(l: InstLayout, row: int, column: int) -> int {
    l.first + column * l.rows + row
}

/// Every cell of the page shows a different control, and the cursor's
/// control is in one of them.
pub proof fn lemma_page_cells(l: InstLayout, r1: int, c1: int, r2: int, c2: int)
    requires
        l.rows >= 1,
        0 <= r1 < l.rows,
        0 <= r2 < l.rows,
        0 <= c1,
        0 <= c2,
        l.per_page == l.columns * l.rows,
        l.first <= l.cursor < l.first + l.per_page,
    ensures
        cell_index_spec(l, r1, c1) == cell_index_spec(l, r2, c2) ==> r1 == r2 && c1 == c2,
        ({
            let off = l.cursor - l.first;
            &&& 0 <= off / (l.rows as int) < l.columns
            &&& cell_index_spec(l, off % (l.rows as int), off / (l.rows as int)) == l.cursor
        }),
{
    let rows = l.rows as int;
    if cell_index_spec(l, r1, c1) == cell_index_spec(l, r2, c2) {
        assert(c1 * rows + r1 == c2 * rows + r2);
        assert(c1 == c2 && r1 == r2) by (nonlinear_arith)
            requires
                c1 * rows + r1 == c2 * rows + r2,
                0 <= r1 < rows,
                0 <= r2 < rows,
                0 <= c1,
                0 <= c2,
        ;
    }
    let off = l.cursor - l.first;
    assert(0 <= off / rows < l.columns && (off / rows) * rows + off % rows == off) by (nonlinear_arith)
        requires
            0 <= off < l.columns * rows,
            rows >= 1,
    ;
}

pub fn cell_index(l: &InstLayout, row: usize, column: usize, count: usize) -> (index: Option<usize>)
    requires
        row < l.rows,
        column < l.columns,
        l.first + l.per_page <= usize::MAX,
        l.per_page == l.columns * l.rows,
    ensures
        index == (if cell_index_spec(*l, row as int, column as int) < count {
            Some(cell_index_spec(*l, row as int, column as int) as usize)
        } else {
            None
        }),
{
    assert(column * l.rows + row < l.per_page) by (nonlinear_arith)
        requires
            row < l.rows,
            column < l.columns,
            l.per_page == l.columns * l.rows,
    ;
    let index = l.first + column * l.rows + row;
    if index < count { Some(index) } else { None }
}

/// The line over the panel: whose controls these are, how many, which page
/// when there is more than one, and the track's name as it is drawn.
pub open spec fn inst_header_spec(t: &ActiveTheme, name: Seq<char>, count: nat, page: nat, pages: nat, focused: bool, track: Seq<char>) -> Seq<(Seq<char>, Style)> {
    seq![
        (seq![' '] + name + seq![' '],
            if focused { bolded(colors(active(t).amber_bright, active(t).bg)) } else { bolded(colors(active(t).normal, active(t).bg)) }),
        ("\u{00B7} "@ + decimal_spec(count) + " controls "@, colors(active(t).dim, active(t).bg)),
    ] + (if pages > 1 {
        seq![("\u{00B7} page "@ + decimal_spec(page + 1) + "/"@ + decimal_spec(pages) + " "@, colors(active(t).muted, active(t).bg))]
    } else {
        Seq::empty()
    }) + seq![("\u{00B7} "@ + track + " "@, colors(active(t).dim, active(t).bg))]
}

/// The line over the panel, with the track's name written in lower case.
pub fn inst_header(t: &ActiveTheme, name: &str, count: u64, page: u64, pages: u64, focused: bool, track: &str) -> (spans: Vec<Span>)
    requires
        page < u64::MAX,
    ensures
        span_views(spans@) == inst_header_spec(
            t,
            name@,
            count as nat,
            page as nat,
            pages as nat,
            focused,
            crate::clips::lowercased(track@),
        ),
{
    let lower = crate::clips::lowercase(track);
    inst_header_cased(t, name, count, page, pages, focused, lower.as_str())
}

/// The line over the panel for a track name already in the case it is
/// drawn in.
pub fn inst_header_cased(
    t: &ActiveTheme,
    name: &str,
    count: u64,
    page: u64,
    pages: u64,
    focused: bool,
    track: &str,
) -> (spans: Vec<Span>)
    requires
        page < u64::MAX,
    ensures
        span_views(spans@) == inst_header_spec(t, name@, count as nat, page as nat, pages as nat, focused, track@),
{
    proof {
        reveal_strlit(" ");
    }
    let mut spans: Vec<Span> = Vec::new();
    let a = concatenated(" ", name);
    spans.push(Span::styled(
        concatenated(a.as_str(), " "),
        if focused { theme::amber_bright(t).bold() } else { theme::normal(t).bold() },
    ));
    let n = decimal(count);
    let b = concatenated("\u{00B7} ", n.as_str());
    spans.push(Span::styled(concatenated(b.as_str(), " controls "), theme::dim(t)));
    if pages > 1 {
        let p = decimal(page + 1);
        let q = decimal(pages);
        let c1 = concatenated("\u{00B7} page ", p.as_str());
        let c2 = concatenated(c1.as_str(), "/");
        let c3 = concatenated(c2.as_str(), q.as_str());
        spans.push(Span::styled(concatenated(c3.as_str(), " "), theme::muted(t)));
    }
    let d = concatenated("\u{00B7} ", track);
    spans.push(Span::styled(concatenated(d.as_str(), " "), theme::dim(t)));
    assert(span_views(spans@) =~~= inst_header_spec(t, name@, count as nat, page as nat, pages as nat, focused, track@));
    spans
}

/// What a control reads as: a selector's word, or a knob's bar beside its
/// reading.
pub enum Reading {
    Label(String),
    Knob { bar: String, text: String },
}

/// The room a cell leaves for its value.
pub open spec fn value_width(cell_w: int) -> int {
    if cell_w >= NAME_W + GUTTER + 1 { cell_w - (NAME_W + GUTTER + 1) } else { 0 }
}

/// How wide a knob's bar is drawn in a cell: what the value's room leaves
/// beside the reading and a space, and never more than twelve.
pub open spec fn bar_width_spec(cell_w: int, reading_len: int) -> int {
    let v = value_width(cell_w);
    let room = if v >= reading_len + 1 { v - (reading_len + 1) } else { 0 };
    if room <= 12 { room } else { 12 }
}

pub fn bar_width(cell_w: usize, reading_len: usize) -> (w: usize)
    requires
        reading_len < usize::MAX,
    ensures
        w == bar_width_spec(cell_w as int, reading_len as int),
{
    let v = if cell_w >= NAME_W + GUTTER + 1 { cell_w - (NAME_W + GUTTER + 1) } else { 0 };
    let room = if v >= reading_len + 1 { v - (reading_len + 1) } else { 0 };
    if room <= 12 { room } else { 12 }
}

/// One cell of the panel: the indicator and the name, then a selector's word
/// cut and padded to the value's room, or a knob's bar and its reading padded
/// out to it, and a space.
pub open spec fn inst_cell_spec(t: &ActiveTheme, name: Seq<char>, selected: bool, cell_w: int, reading: Reading) -> Seq<(Seq<char>, Style)> {
    let name_style = if selected { bolded(colors(active(t).amber_bright, active(t).bg)) } else { colors(active(t).normal, active(t).bg) };
    let v = value_width(cell_w);
    seq![
        ((if selected { seq!['\u{25B6}'] } else { seq![' '] }) + seq![' '], name_style),
        (left_aligned_spec(name, NAME_W as nat) + seq![' '], name_style),
    ] + match reading {
        Reading::Label(label) => {
            let cut = if label@.len() <= v { label@ } else { label@.subrange(0, v) };
            seq![(left_aligned_spec(cut, v as nat),
                if selected { colors(active(t).amber_bright, active(t).bg) } else { colors(active(t).muted, active(t).bg) })]
        },
        Reading::Knob { bar, text } => {
            let bw = bar_width_spec(cell_w, text@.len() as int);
            let used = bw + text@.len() + 1;
            let pad = if v >= used { v - used } else { 0 };
            seq![
                (bar@, if selected { colors(active(t).amber, active(t).bg) } else { colors(active(t).muted, active(t).bg) }),
                (seq![' '] + text@ + repeated(' ', pad as nat),
                    if selected { colors(active(t).amber, active(t).bg) } else { colors(active(t).dim, active(t).bg) }),
            ]
        },
    } + seq![(seq![' '], on(active(t).bg))]
}

pub fn inst_cell(t: &ActiveTheme, name: &str, selected: bool, cell_w: usize, reading: &Reading) -> (spans: Vec<Span>)
    requires
        match reading {
            Reading::Knob { text, .. } => text@.len() + 14 < usize::MAX,
            Reading::Label(_) => true,
        },
    ensures
        span_views(spans@) == inst_cell_spec(t, name@, selected, cell_w as int, *reading),
{
    let name_style = if selected { theme::amber_bright(t).bold() } else { theme::normal(t) };
    let v = if cell_w >= NAME_W + GUTTER + 1 { cell_w - (NAME_W + GUTTER + 1) } else { 0 };
    let mut spans: Vec<Span> = Vec::new();
    let mut lead = char_string(if selected { '\u{25B6}' } else { ' ' });
    crate::text::push_char(&mut lead, ' ');
    spans.push(Span::styled(lead, name_style));
    let mut named = left_aligned(name, NAME_W);
    crate::text::push_char(&mut named, ' ');
    spans.push(Span::styled(named, name_style));
    match reading {
        Reading::Label(label) => {
            let n = char_count(label.as_str());
            let cut: &str = if n <= v { label.as_str() } else { label.as_str().substring_char(0, v) };
            spans.push(Span::styled(
                left_aligned(cut, v),
                if selected { theme::amber_bright(t) } else { theme::muted(t) },
            ));
        },
        Reading::Knob { bar, text } => {
            let len = char_count(text.as_str());
            let bw = bar_width(cell_w, len);
            let used = bw + len + 1;
            let pad = if v >= used { v - used } else { 0 };
            spans.push(Span::styled(
                bar.clone(),
                if selected { theme::amber(t) } else { theme::muted(t) },
            ));
            let mut shown = char_string(' ');
            shown.append(text.as_str());
            let gap = repeat_char(' ', pad);
            shown.append(gap.as_str());
            spans.push(Span::styled(shown, if selected { theme::amber(t) } else { theme::dim(t) }));
        },
    }
    spans.push(Span::styled(char_string(' '), theme::bg(t)));
    assert(span_views(spans@) =~~= inst_cell_spec(t, name@, selected, cell_w as int, *reading));
    spans
}

/// The first control the narrow list shows: enough scrolled that the cursor
/// is on its last visible row, and none while it fits.
pub open spec fn list_scroll_spec(cursor: int, visible: int) -> int {
    if cursor >= visible { cursor - visible + 1 } else { 0 }
}

/// The list keeps the cursor in sight: it is at or after the first control
/// shown, and before the first control past the rows there are.
pub proof fn lemma_list_keeps_cursor(cursor: int, visible: int)
    requires
        visible >= 1,
        cursor >= 0,
    ensures
        list_scroll_spec(cursor, visible) <= cursor < list_scroll_spec(cursor, visible) + visible,
{
}

/// The width of a knob's bar in the narrow list.
pub open spec fn list_bar_width_spec(w: int) -> int {
    let room = if w >= 14 { w - 14 } else { 0 };
    if room <= 10 { room } else { 10 }
}

pub fn list_bar_width(w: usize) -> (b: usize)
    ensures
        b == list_bar_width_spec(w as int),
{
    let room = if w >= 14 { w - 14 } else { 0 };
    if room <= 10 { room } else { 10 }
}

/// One row of the narrow list: the indicator, the name in eight columns, and
/// a selector's word or a knob's bar and reading.
pub open spec fn list_row_spec(t: &ActiveTheme, name: Seq<char>, is_cur: bool, reading: Reading) -> Seq<(Seq<char>, Style)> {
    let name_s = if is_cur { bolded(colors(active(t).amber_bright, active(t).bg)) } else { colors(active(t).normal, active(t).bg) };
    let dim_s = if is_cur { colors(active(t).amber, active(t).bg) } else { colors(active(t).dim, active(t).bg) };
    seq![
        (seq![' '] + (if is_cur { seq!['\u{25B6}'] } else { seq![' '] }) + seq![' '], name_s),
        (left_aligned_spec(name, NAME_W as nat), name_s),
    ] + match reading {
        Reading::Label(label) => seq![(seq![' '] + label@, dim_s)],
        Reading::Knob { bar, text } => seq![
            (bar@, if is_cur { colors(active(t).amber, active(t).bg) } else { colors(active(t).muted, active(t).bg) }),
            (seq![' '] + text@, dim_s),
        ],
    }
}

pub fn list_row(t: &ActiveTheme, name: &str, is_cur: bool, reading: &Reading) -> (spans: Vec<Span>)
    ensures
        span_views(spans@) == list_row_spec(t, name@, is_cur, *reading),
{
    let name_s = if is_cur { theme::amber_bright(t).bold() } else { theme::normal(t) };
    let dim_s = if is_cur { theme::amber(t) } else { theme::dim(t) };
    let mut spans: Vec<Span> = Vec::new();
    let mut lead = char_string(' ');
    crate::text::push_char(&mut lead, if is_cur { '\u{25B6}' } else { ' ' });
    crate::text::push_char(&mut lead, ' ');
    spans.push(Span::styled(lead, name_s));
    spans.push(Span::styled(left_aligned(name, NAME_W), name_s));
    match reading {
        Reading::Label(label) => {
            let mut s = char_string(' ');
            s.append(label.as_str());
            spans.push(Span::styled(s, dim_s));
        },
        Reading::Knob { bar, text } => {
            spans.push(Span::styled(bar.clone(), if is_cur { theme::amber(t) } else { theme::muted(t) }));
            let mut s = char_string(' ');
            s.append(text.as_str());
            spans.push(Span::styled(s, dim_s));
        },
    }
    assert(span_views(spans@) =~~= list_row_spec(t, name@, is_cur, *reading));
    spans
}

/// The two lines under the list while it has the keys: a blank, and what
/// the keys do.
pub open spec fn list_hint_spec(t: &ActiveTheme) -> Seq<(Seq<char>, Style)> {
    seq![
        ("  h/l"@, colors(active(t).dim, active(t).bg)),
        (" adjust  "@, colors(active(t).muted, active(t).bg)),
        ("jk"@, colors(active(t).dim, active(t).bg)),
        (" select"@, colors(active(t).muted, active(t).bg)),
    ]
}

pub fn list_hint(t: &ActiveTheme) -> (spans: Vec<Span>)
    ensures
        span_views(spans@) == list_hint_spec(t),
{
    let mut spans: Vec<Span> = Vec::new();
    spans.push(Span::styled(String::from_str("  h/l"), theme::dim(t)));
    spans.push(Span::styled(String::from_str(" adjust  "), theme::muted(t)));
    spans.push(Span::styled(String::from_str("jk"), theme::dim(t)));
    spans.push(Span::styled(String::from_str(" select"), theme::muted(t)));
    assert(span_views(spans@) =~= list_hint_spec(t));
    spans
}

/// One of the instrument's controls, as the narrow list reads it.
pub struct Control {
    pub name: String,
    pub reading: Reading,
}

/// How many controls the narrow list shows from `start`.
pub open spec fn synth_shown(len: int, visible: int, start: int) -> int {
    let left = if len > start { len - start } else { 0 };
    if visible < left { visible } else { left }
}

/// The narrow instrument list before it is cut to the pane: a line saying
/// there is no instrument, or the controls in the window that keeps the
/// cursor in sight, with the keys under them while the list has them.
pub open spec fn synth_all(t: &ActiveTheme, controls: Seq<Control>, cursor: int, focused: bool, h: int) -> Seq<
    Seq<(Seq<char>, Style)>,
> {
    if controls.len() == 0 {
        seq![seq![("  (no instrument)"@, colors(active(t).dim, active(t).bg))]]
    } else {
        let visible = if h >= 2 { h - 2 } else { 0 };
        let start = list_scroll_spec(cursor, visible);
        Seq::new(
            synth_shown(controls.len() as int, visible, start) as nat,
            |k: int| list_row_spec(t, controls[start + k].name@, focused && cursor == start + k, controls[start + k].reading),
        ) + if focused { seq![Seq::empty(), list_hint_spec(t)] } else { Seq::empty() }
    }
}

/// The narrow instrument list, `h` rows at most.
pub open spec fn synth_spec(t: &ActiveTheme, controls: Seq<Control>, cursor: int, focused: bool, h: int) -> Seq<
    Seq<(Seq<char>, Style)>,
> {
    let all = synth_all(t, controls, cursor, focused, h);
    if h < all.len() { all.subrange(0, h) } else { all }
}

pub fn synth_lines(t: &ActiveTheme, controls: &Vec<Control>, cursor: usize, focused: bool, h: usize) -> (lines: Vec<Vec<Span>>)
    ensures
        lines@.len() == synth_spec(t, controls@, cursor as int, focused, h as int).len(),
        forall|i: int|
            0 <= i < lines@.len() ==> span_views(#[trigger] lines@[i]@) == synth_spec(t, controls@, cursor as int, focused, h as int)[i],
{
    let ghost all = synth_all(t, controls@, cursor as int, focused, h as int);
    let mut lines: Vec<Vec<Span>> = Vec::new();
    if controls.len() == 0 {
        lines.push(vec![Span::styled(String::from_str("  (no instrument)"), theme::dim(t))]);
        assert(span_views(lines@[0]@) =~= all[0]);
    } else {
        let visible = if h >= 2 { h - 2 } else { 0 };
        let start = if visible == 0 { 0 } else if cursor >= visible { cursor - (visible - 1) } else { 0 };
        let left = if controls.len() > start { controls.len() - start } else { 0 };
        let shown = if visible == 0 { 0 } else if visible < left { visible } else { left };
        assert(shown > 0 ==> start == list_scroll_spec(cursor as int, visible as int));
        assert(shown == synth_shown(controls@.len() as int, visible as int, list_scroll_spec(cursor as int, visible as int)));
        let mut k: usize = 0;
        while k < shown
            invariant
                k <= shown,
                shown == 0 || start + shown <= controls.len(),
                shown == synth_shown(controls@.len() as int, visible as int, list_scroll_spec(cursor as int, visible as int)),
                shown > 0 ==> start == list_scroll_spec(cursor as int, visible as int),
                visible == (if h >= 2 { h - 2 } else { 0 }),
                controls@.len() > 0,
                all == synth_all(t, controls@, cursor as int, focused, h as int),
                lines@.len() == k,
                forall|j: int| 0 <= j < k ==> span_views(#[trigger] lines@[j]@) == all[j],
            decreases shown - k,
        {
            let i = start + k;
            let c = &controls[i];
            lines.push(list_row(t, c.name.as_str(), focused && cursor == i, &c.reading));
            k += 1;
        }
        if focused {
            lines.push(Vec::new());
            lines.push(list_hint(t));
            assert(span_views(lines@[shown as int]@) =~= all[shown as int]);
        }
    }
    let ghost full = lines@;
    assert(full.len() == all.len());
    lines.truncate(h);
    lines
}

} // verus!
