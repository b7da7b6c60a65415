//! A panel of knobs, in the house style: `" label ◔ value "`, wrapped to the
//! width it has, under a heading; and the window that keeps the row with the
//! cursor on it on the screen.

use vstd::prelude::*;

use crate::style::{bolded, colors, Color, Style};
use crate::text::{
    char_count, char_string, push_span, repeat_char, right_aligned, right_aligned_spec,
    repeated, span_views, text_of, width_of, Span,
};
use crate::theme::{self, active, ActiveTheme};

verus! {

/// The five positions of the dial, emptiest first.
pub open spec fn dial_glyph_spec(step: u8) -> char {
    if step == 0 { '\u{25CB}' }
    else if step == 1 { '\u{25D4}' }
    else if step == 2 { '\u{25D1}' }
    else if step == 3 { '\u{25D5}' }
    else { '\u{25CF}' }
}

/// The dial glyph for a position; past the last it stays at full.
pub fn dial_glyph(step: u8) -> (c: char)
    ensures
        c == dial_glyph_spec(step),
{
    if step == 0 { '\u{25CB}' }
    else if step == 1 { '\u{25D4}' }
    else if step == 2 { '\u{25D1}' }
    else if step == 3 { '\u{25D5}' }
    else { '\u{25CF}' }
}

/// Where the dial points for item `index` of a list of `count`: the item's
/// place along the list, rounded to the nearest of the five positions, half
/// way rounding up; a list of one points at the start, and an index past the
/// end points at the end.
pub open spec fn dial_at_spec(index: int, count: int) -> int {
    if count <= 1 {
        0
    } else if index >= count - 1 {
        4
    } else {
        (8 * index + count - 1) / (2 * (count - 1))
    }
}

pub fn dial_at(index: usize, count: usize) -> (step: u8)
    ensures
        step == dial_at_spec(index as int, count as int),
        step <= 4,
{
    if count <= 1 {
        0
    } else if index >= count - 1 {
        4
    } else {
        let num = 8 * (index as u128) + (count as u128) - 1;
        let den = 2 * ((count as u128) - 1);
        assert(num < 4 * den + den) by (nonlinear_arith)
            requires num == 8 * index + count - 1, den == 2 * (count - 1), index < count - 1;
        assert(num / den <= 4) by (nonlinear_arith)
            requires num < 5 * den, den > 0;
        (num / den) as u8
    }
}

/// One control on a panel.
pub struct Knob {
    pub label: String,
    pub value: String,
    /// Where the dial points, 0 (empty) to 4 (full).
    pub dial: u8,
}

/// How many cells a knob draws: `" label ◔ value "`.
pub open spec fn knob_width_spec(k: &Knob) -> int {
    k.label@.len() as int + k.value@.len() as int + 5
}

impl Knob {
    pub fn new(label: &str, value: String, dial: u8) -> (k: Knob)
        ensures
            k.label@ == label@,
            k.value@ == value@,
            k.dial == dial,
    {
        Knob { label: String::from_str(label), value, dial }
    }

    /// One of a list, by position: how a discrete control reads.
    pub fn at(label: &str, value: String, index: usize, count: usize) -> (k: Knob)
        ensures
            k.label@ == label@,
            k.value@ == value@,
            k.dial == dial_at_spec(index as int, count as int),
    {
        Knob::new(label, value, dial_at(index, count))
    }

    /// A switch: `on` with the dial full, `off` with it empty.
    pub fn toggle(label: &str, on: bool) -> (k: Knob)
        ensures
            k.label@ == label@,
            k.value@ == (if on { "on"@ } else { "off"@ }),
            k.dial == (if on { 4u8 } else { 0u8 }),
    {
        Knob::new(label, String::from_str(if on { "on" } else { "off" }), if on { 4 } else { 0 })
    }

    /// What the panel will draw for this knob, counted exactly.
    pub fn width(&self) -> (w: usize)
        requires
            self.label@.len() + self.value@.len() + 5 <= usize::MAX,
        ensures
            w == knob_width_spec(self),
    {
        char_count(self.label.as_str()) + char_count(self.value.as_str()) + 5
    }
}

/// Everything the drawing needs that is not a knob.
pub struct Panel {
    /// Which control the cursor is standing on.
    pub cursor: usize,
    /// Whether the cursor is in this panel rather than another band.
    pub active: bool,
    /// Enter was pressed on the control under the cursor.
    pub locked: bool,
    /// The view has the keyboard at all.
    pub focused: bool,
    /// The track's colour, which idle dials take.
    pub colour: Color,
    /// The width to wrap at.
    pub width: usize,
    /// The column the knobs start in, under the heading.
    pub indent: usize,
}

/// The style of a knob's label.
pub open spec fn label_style_spec(p: &Panel, t: &ActiveTheme, selected: bool) -> Style {
    if selected {
        bolded(colors(active(t).amber_bright, active(t).bg))
    } else if p.focused {
        colors(active(t).muted, active(t).bg)
    } else {
        colors(active(t).dim, active(t).bg)
    }
}

/// The style of a knob's dial.
pub open spec fn dial_style_spec(p: &Panel, t: &ActiveTheme, selected: bool) -> Style {
    if selected {
        colors(active(t).amber_bright, active(t).bg)
    } else {
        colors(p.colour, active(t).bg)
    }
}

/// The style of a knob's value: inverse video when it is held.
pub open spec fn value_style_spec(p: &Panel, t: &ActiveTheme, selected: bool, locked: bool) -> Style {
    if locked {
        bolded(colors(active(t).bg, active(t).amber_bright))
    } else if selected {
        colors(active(t).amber_bright, active(t).bg)
    } else if p.focused {
        colors(active(t).normal, active(t).bg)
    } else {
        colors(active(t).dim, active(t).bg)
    }
}

impl Panel {
    /// Whether knob `index` is the one under the cursor.
    pub open spec fn selected(&self, index: int) -> bool {
        self.active && self.cursor == index
    }

    /// A knob's four parts: the label between spaces, the dial, the value
    /// after a space, and a trailing space.
    pub fn spans(&self, t: &ActiveTheme, knob: &Knob, index: usize) -> (spans: Vec<Span>)
        ensures
            spans.len() == 4,
            spans@[0].text@ == seq![' '] + knob.label@ + seq![' '],
            spans@[1].text@ == seq![dial_glyph_spec(knob.dial)],
            spans@[2].text@ == seq![' '] + knob.value@,
            spans@[3].text@ == seq![' '],
            spans@[0].style == label_style_spec(self, t, self.selected(index as int)),
            spans@[1].style == dial_style_spec(self, t, self.selected(index as int)),
            spans@[2].style == value_style_spec(self, t, self.selected(index as int),
                self.selected(index as int) && self.locked),
            spans@[3].style == crate::style::on(active(t).bg),
            width_of(spans@) == knob_width_spec(knob),
    {
        let selected = self.active && self.cursor == index;
        let locked = selected && self.locked;

        let label_style = if selected {
            theme::amber_bright(t).bold()
        } else if self.focused {
            theme::muted(t)
        } else {
            theme::dim(t)
        };
        let dial_style = if selected {
            Style::new().fg(theme::amber_bright_val(t)).bg(theme::bg_val(t))
        } else {
            Style::new().fg(self.colour).bg(theme::bg_val(t))
        };
        let value_style = if locked {
            Style::new().fg(theme::bg_val(t)).bg(theme::amber_bright_val(t)).bold()
        } else if selected {
            theme::amber_bright(t)
        } else if self.focused {
            theme::normal(t)
        } else {
            theme::dim(t)
        };

        let mut label = char_string(' ');
        label.append(knob.label.as_str());
        crate::text::push_char(&mut label, ' ');
        let mut value = char_string(' ');
        value.append(knob.value.as_str());
        let mut spans: Vec<Span> = Vec::new();
        proof {
            assert(text_of(spans@) =~= Seq::<char>::empty());
        }
        push_span(&mut spans, Span::styled(label, label_style));
        push_span(&mut spans, Span::styled(char_string(dial_glyph(knob.dial)), dial_style));
        push_span(&mut spans, Span::styled(value, value_style));
        push_span(&mut spans, Span::styled(char_string(' '), theme::bg(t)));
        spans
    }
}

/// `count` of `rows`, chosen so that the row the cursor is on is one of them.
pub open spec fn window_start(len: int, count: int, cursor_row: int) -> int {
    let back = cursor_row + 1 - count;
    let from = if back < 0 { 0 } else { back };
    if from < len - count { from } else { len - count }
}

/// `count` rows of a panel, chosen so that the row the cursor is on is one
/// of them: none for no room, all of them when they fit, and otherwise the
/// run that ends at the cursor's row or, near the top, starts at the first.
pub fn window<T>(rows: Vec<T>, count: usize, cursor_row: usize) -> (shown: Vec<T>)
    ensures
        count == 0 ==> shown@.len() == 0,
        count > 0 && count >= rows@.len() ==> shown@ == rows@,
        0 < count < rows@.len() ==> shown@ == rows@.subrange(
            window_start(rows@.len() as int, count as int, cursor_row as int),
            window_start(rows@.len() as int, count as int, cursor_row as int) + count,
        ),
{
    if count == 0 {
        return Vec::new();
    }
    if count >= rows.len() {
        return rows;
    }
    let back = if cursor_row >= count - 1 { cursor_row - (count - 1) } else { 0 };
    let start = if back < rows.len() - count { back } else { rows.len() - count };
    let mut rows = rows;
    let mut tail = rows.split_off(start);
    tail.truncate(count);
    tail
}

/// **A windowed panel keeps the cursor on the screen.** Whenever there is
/// room for a row at all, the row the cursor is on is among those shown.
pub proof fn lemma_window_keeps_cursor(len: int, count: int, cursor_row: int)
    requires
        0 < count < len,
        0 <= cursor_row < len,
    ensures
        window_start(len, count, cursor_row) <= cursor_row,
        cursor_row < window_start(len, count, cursor_row) + count,
        0 <= window_start(len, count, cursor_row),
{
}

/// The widths of a list of knobs.
pub open spec fn widths(knobs: Seq<Knob>) -> Seq<int> {
    knobs.map(|i: int, k: Knob| knob_width_spec(&k))
}

/// Where the first `k` knobs leave the wrapping: the row the last of them is
/// on, and how many cells of it are used. A knob goes on the current row
/// when it fits in `width`, or when it is the first on its row.
pub open spec fn placed(ws: Seq<int>, indent: int, width: int, k: int) -> (int, int)
    decreases k,
{
    if k <= 0 {
        (0, indent)
    } else {
        let (row, used) = placed(ws, indent, width, k - 1);
        if used + ws[k - 1] > width && used > indent {
            (row + 1, indent + ws[k - 1])
        } else {
            (row, used + ws[k - 1])
        }
    }
}

/// The heading over the panel's first row: the title right-aligned in the
/// indent, and a space.
pub open spec fn heading_text(title: Seq<char>, indent: int) -> Seq<char> {
    right_aligned_spec(title, (indent - 1) as nat) + seq![' ']
}

/// Every row is no wider than the panel, or than the indent and the widest
/// knob where one knob alone is wider than that.
pub open spec fn row_bound(ws: Seq<int>, indent: int, width: int) -> int {
    let widest = widest_of(ws, ws.len() as int);
    if width >= indent + widest { width } else { indent + widest }
}

/// The widest of the first `k` widths.
pub open spec fn widest_of(ws: Seq<int>, k: int) -> int
    decreases k,
{
    if k <= 0 { 0 } else {
        let w = widest_of(ws, k - 1);
        if ws[k - 1] > w { ws[k - 1] } else { w }
    }
}

proof fn lemma_widest_grows(ws: Seq<int>, k: int, j: int)
    requires
        0 <= j < k <= ws.len(),
    ensures
        ws[j] <= widest_of(ws, k),
        widest_of(ws, j) <= widest_of(ws, k),
    decreases k,
{
    if j < k - 1 {
        lemma_widest_grows(ws, k - 1, j);
    }
}

proof fn lemma_widest_nonneg(ws: Seq<int>, k: int)
    ensures
        widest_of(ws, k) >= 0,
    decreases k,
{
    if k > 0 {
        lemma_widest_nonneg(ws, k - 1);
    }
}

/// A knob's four parts as a panel draws them: the label between spaces,
/// the dial, the value after a space, and a trailing space.
pub open spec fn knob_views(p: &Panel, t: &ActiveTheme, k: Knob, index: int) -> Seq<(Seq<char>, Style)> {
    let sel = p.selected(index);
    seq![
        (seq![' '] + k.label@ + seq![' '], label_style_spec(p, t, sel)),
        (seq![dial_glyph_spec(k.dial)], dial_style_spec(p, t, sel)),
        (seq![' '] + k.value@, value_style_spec(p, t, sel, sel && p.locked)),
        (seq![' '], crate::style::on(active(t).bg)),
    ]
}

/// The style of a panel's heading: bright and bold while its cursor is in
/// it, muted while the view has the keys, dim otherwise.
pub open spec fn panel_heading_style(p: &Panel, t: &ActiveTheme) -> Style {
    if p.active {
        bolded(colors(active(t).amber_bright, active(t).bg))
    } else if p.focused {
        colors(active(t).muted, active(t).bg)
    } else {
        colors(active(t).dim, active(t).bg)
    }
}

/// A panel's rows once its first `k` knobs are placed: the heading, then
/// each knob on the current row where it fits — or where it is the first on
/// its row — and otherwise on a new row that starts with the indent.
pub open spec fn rows_upto(p: &Panel, t: &ActiveTheme, title: Seq<char>, knobs: Seq<Knob>, k: int) -> Seq<
    Seq<(Seq<char>, Style)>,
>
    decreases k,
{
    if k <= 0 {
        seq![seq![(heading_text(title, p.indent_spec()), panel_heading_style(p, t))]]
    } else {
        let prev = rows_upto(p, t, title, knobs, k - 1);
        let used = placed(widths(knobs), p.indent_spec(), p.width as int, k - 1).1;
        let cell = knob_views(p, t, knobs[k - 1], k - 1);
        if used + widths(knobs)[k - 1] > p.width && used > p.indent_spec() {
            prev.push(seq![(repeated(' ', p.indent_spec() as nat), crate::style::on(active(t).bg))] + cell)
        } else {
            prev.update(prev.len() - 1, prev.last() + cell)
        }
    }
}

impl Panel {
    /// The indent the knobs actually start in: at least one column.
    pub open spec fn indent_spec(&self) -> int {
        if self.indent >= 1 { self.indent as int } else { 1 }
    }

    /// A panel of knobs wrapped to the width it has, under a title; and which
    /// of the rows the cursor's knob ended up on.
    ///
    /// **No row runs past the right edge**: with a title that fits the
    /// indent, every row is at most the panel's width, or one knob and the
    /// indent where a single knob is wider than that.
    pub fn rows(&self, t: &ActiveTheme, title: &str, knobs: &Vec<Knob>) -> (out: (Vec<Vec<Span>>, usize))
        requires
            self.width <= usize::MAX / 4,
            self.indent <= usize::MAX / 4,
            forall|i: int| 0 <= i < knobs@.len() ==> knob_width_spec(#[trigger] &knobs@[i]) <= usize::MAX / 4,
        ensures
            ({
                let ws = widths(knobs@);
                let n = knobs@.len() as int;
                let (rows, cursor_row) = out;
                &&& rows@.len() == placed(ws, self.indent_spec(), self.width as int, n).0 + 1
                &&& cursor_row == (if (self.cursor as int) < n {
                        placed(ws, self.indent_spec(), self.width as int, self.cursor as int + 1).0
                    } else { 0 })
                &&& rows@[0]@.len() > 0
                &&& rows@[0]@[0].text@ == heading_text(title@, self.indent_spec())
                &&& title@.len() < self.indent_spec() ==> forall|r: int| 0 <= r < rows@.len() ==>
                        width_of(#[trigger] rows@[r]@) <= row_bound(ws, self.indent_spec(), self.width as int)
                &&& rows@.len() == rows_upto(self, t, title@, knobs@, n).len()
                &&& forall|r: int| 0 <= r < rows@.len() ==>
                        span_views(#[trigger] rows@[r]@) == rows_upto(self, t, title@, knobs@, n)[r]
            }),
    {
        let heading = if self.active {
            theme::amber_bright(t).bold()
        } else if self.focused {
            theme::muted(t)
        } else {
            theme::dim(t)
        };
        let ghost ws = widths(knobs@);
        let ghost n = knobs@.len() as int;
        let indent = if self.indent >= 1 { self.indent } else { 1 };
        let ghost bound = row_bound(ws, indent as int, self.width as int);
        let ghost fits = title@.len() < indent;
        proof {
            lemma_widest_nonneg(ws, n);
        }

        let mut rows: Vec<Vec<Span>> = Vec::new();
        let mut cursor_row: usize = 0;
        let mut head = right_aligned(title, indent - 1);
        crate::text::push_char(&mut head, ' ');
        let mut spans: Vec<Span> = Vec::new();
        proof { assert(text_of(spans@) =~= Seq::<char>::empty()); }
        push_span(&mut spans, Span::styled(head, heading));
        let ghost first = spans@[0];
        proof {
            assert(spans@.len() == 1);
            assert(spans@[0].text@ =~= heading_text(title@, indent as int));
            assert(heading == panel_heading_style(self, t));
            assert(span_views(spans@) =~= rows_upto(self, t, title@, knobs@, 0)[0]);
        }
        let mut used = indent;
        let mut index: usize = 0;
        while index < knobs.len()
            invariant
                0 <= index <= knobs@.len(),
                n == knobs@.len(),
                ws == widths(knobs@),
                indent as int == self.indent_spec(),
                self.width <= usize::MAX / 4,
                indent <= usize::MAX / 4,
                forall|i: int| 0 <= i < knobs@.len() ==> knob_width_spec(#[trigger] &knobs@[i]) <= usize::MAX / 4,
                bound == row_bound(ws, indent as int, self.width as int),
                bound >= self.width,
                bound >= indent,
                (rows@.len() as int, used as int) == placed(ws, indent as int, self.width as int, index as int),
                used >= indent,
                used <= bound,
                fits ==> width_of(spans@) == used,
                fits ==> forall|r: int| 0 <= r < rows@.len() ==> width_of(#[trigger] rows@[r]@) <= bound,
                spans@.len() > 0,
                rows@.len() == 0 ==> spans@[0] == first,
                rows@.len() > 0 ==> rows@[0]@.len() > 0 && rows@[0]@[0] == first,
                first.text@ == heading_text(title@, indent as int),
                cursor_row == (if (self.cursor as int) < index {
                    placed(ws, indent as int, self.width as int, self.cursor as int + 1).0
                } else { 0 }),
                rows@.len() + 1 == rows_upto(self, t, title@, knobs@, index as int).len(),
                forall|r: int| 0 <= r < rows@.len() ==>
                    span_views(#[trigger] rows@[r]@) == rows_upto(self, t, title@, knobs@, index as int)[r],
                span_views(spans@) == rows_upto(self, t, title@, knobs@, index as int).last(),
            decreases knobs@.len() - index,
        {
            let knob = &knobs[index];
            let w = knob.width();
            proof {
                lemma_widest_grows(ws, n, index as int);
                assert(ws[index as int] == w);
            }
            let ghost prev = rows_upto(self, t, title@, knobs@, index as int);
            let ghost old_rows = rows@;
            let ghost old_spans = span_views(spans@);
            let ghost wraps = used + w > self.width && used > indent;
            if used + w > self.width && used > indent {
                let mut done: Vec<Span> = Vec::new();
                std::mem::swap(&mut done, &mut spans);
                rows.push(done);
                proof { assert(text_of(spans@) =~= Seq::<char>::empty()); }
                push_span(&mut spans, Span::styled(repeat_char(' ', indent), theme::bg(t)));
                proof {
                    assert(span_views(spans@) =~= seq![(repeated(' ', indent as nat), crate::style::on(active(t).bg))]);
                }
                used = indent;
            }
            let ghost vbase = span_views(spans@);
            if index == self.cursor {
                cursor_row = rows.len();
            }
            used += w;
            let parts = self.spans(t, knob, index);
            let mut j: usize = 0;
            let ghost base = text_of(spans@);
            let ghost keep0 = spans@[0];
            while j < parts.len()
                invariant
                    parts@.len() == 4,
                    0 <= j <= 4,
                    spans@.len() > 0,
                    spans@[0] == keep0,
                    text_of(spans@) == base + text_of(parts@.subrange(0, j as int)),
                    span_views(spans@) == vbase + span_views(parts@.subrange(0, j as int)),
                decreases 4 - j,
            {
                let piece = Span::styled(parts[j].text.clone(), parts[j].style);
                let ghost before = span_views(spans@);
                proof {
                    assert(parts@.subrange(0, j as int + 1).drop_last() =~= parts@.subrange(0, j as int));
                }
                push_span(&mut spans, piece);
                proof {
                    assert(span_views(spans@) =~= before.push((parts@[j as int].text@, parts@[j as int].style)));
                    assert(span_views(parts@.subrange(0, j as int + 1)) =~= span_views(parts@.subrange(0, j as int)).push(
                        (parts@[j as int].text@, parts@[j as int].style),
                    ));
                }
                j += 1;
            }
            proof {
                assert(parts@.subrange(0, 4) =~= parts@);
                let cell = knob_views(self, t, knobs@[index as int], index as int);
                assert(span_views(parts@) =~= cell);
                let next = rows_upto(self, t, title@, knobs@, index as int + 1);
                if wraps {
                    assert(next == prev.push(seq![(repeated(' ', indent as nat), crate::style::on(active(t).bg))] + cell));
                    assert(rows@.len() == old_rows.len() + 1);
                    assert forall|r: int| 0 <= r < rows@.len() implies span_views(#[trigger] rows@[r]@) == next[r] by {
                        if r < old_rows.len() {
                            assert(rows@[r] == old_rows[r]);
                        }
                    }
                } else {
                    assert(next == prev.update(prev.len() - 1, prev.last() + cell));
                    assert forall|r: int| 0 <= r < rows@.len() implies span_views(#[trigger] rows@[r]@) == next[r] by {
                        assert(rows@[r] == old_rows[r]);
                    }
                }
            }
            index += 1;
        }
        let ghost last_views = span_views(spans@);
        let ghost before = rows@;
        rows.push(spans);
        proof {
            let all = rows_upto(self, t, title@, knobs@, n);
            assert forall|r: int| 0 <= r < rows@.len() implies span_views(#[trigger] rows@[r]@) == all[r] by {
                if r < before.len() {
                    assert(rows@[r] == before[r]);
                }
            }
        }
        (rows, cursor_row)
    }
}

} // verus!
