//! The step grid's layout: how wide a step is drawn, which page of a long
//! pattern is on the screen, which lanes get a row, and which sections of
//! the view survive a short terminal.

use vstd::prelude::*;

use crate::style::{bolded, colors, Style};
use crate::theme::{self, active, ActiveTheme};

verus! {

/// The lane label column.
pub const LABEL_W: usize = 4;

/// Steps to a beat, which is what the gaps in the row count out.
pub const BEAT: usize = 4;

/// The gap between beats, in columns.
pub const BEAT_GAP: usize = 1;

/// A page of steps, at most sixteen.
pub const PAGE: usize = 16;

/// How many lanes a pattern has.
pub const LANES: usize = 8;

/// The geometry of one page of the step grid.
#[derive(Clone, Copy, Debug)]
pub struct Geometry {
    /// Columns per step, including the space that separates it from the next.
    pub cell: usize,
    /// The first step of the page on the screen.
    pub first: usize,
    /// How many steps are on it.
    pub count: usize,
    /// How many pages the pattern is.
    pub pages: usize,
}

/// The columns a page of `count` steps of `cell` columns needs.
pub open spec fn page_width(cell: int, count: int) -> int {
    LABEL_W as int + count * cell + (if count >= 1 { (count - 1) / (BEAT as int) } else { 0 }) * (BEAT_GAP as int)
}

/// Where step `step` of a page starts: past the label column, a cell for
/// each step before it on the page, and a gap after each whole beat.
pub open spec fn step_x(g: Geometry, step: int) -> int {
    let offset = step - g.first;
    LABEL_W as int + offset * g.cell + offset / (BEAT as int) * (BEAT_GAP as int)
}

/// Whether step `step` is on the page.
pub open spec fn on_page(g: Geometry, step: int) -> bool {
    g.first <= step < g.first + g.count
}

/// **Steps sit in order and inside the page.** The first step on the page
/// starts just past the label column; each step starts a whole cell or more
/// after the one before it, so no two overlap; and every step's cell ends
/// within the page's width, the last exactly at it.
pub proof fn lemma_steps_in_order(g: Geometry, a: int, b: int)
    requires
        g.cell >= 1,
        on_page(g, a),
        on_page(g, b),
    ensures
        step_x(g, g.first as int) == LABEL_W,
        a < b ==> step_x(g, a) + g.cell <= step_x(g, b),
        step_x(g, a) + g.cell <= page_width(g.cell as int, g.count as int),
        a == g.first + g.count - 1 ==> step_x(g, a) + g.cell == page_width(g.cell as int, g.count as int),
{
    let f = g.first as int;
    let c = g.cell as int;
    let n = g.count as int;
    assert(0 * c == 0);
    if a < b {
        assert((b - f) * c >= (a - f) * c + c) by (nonlinear_arith)
            requires a < b, c >= 1;
        assert((b - f) / 4 >= (a - f) / 4) by (nonlinear_arith)
            requires a < b, a >= f;
    }
    let last = f + n - 1;
    assert((last - f) * c + c == n * c) by (nonlinear_arith)
        requires last == f + n - 1;
    assert((a - f) * c <= (last - f) * c) by (nonlinear_arith)
        requires a <= last, c >= 1;
    assert((a - f) / 4 <= (last - f) / 4) by (nonlinear_arith)
        requires a <= last, a >= f;
}

impl Geometry {
    /// The x of a step's cell, or `None` when it is on another page; asked
    /// of a page whose width fits a machine word, as every page drawn does.
    pub fn x_of(&self, step: usize) -> (x: Option<usize>)
        requires
            self.first + self.count <= usize::MAX,
            page_width(self.cell as int, self.count as int) <= usize::MAX,
        ensures
            x == (if !on_page(*self, step as int) { None::<usize> } else { Some(step_x(*self, step as int) as usize) }),
    {
        if step < self.first || step >= self.first + self.count {
            return None;
        }
        let offset = step - self.first;
        proof {
            let n = self.count as int;
            assert(offset * self.cell <= n * self.cell) by (nonlinear_arith)
                requires offset < n;
            assert(offset / 4 <= (n - 1) / 4) by (nonlinear_arith)
                requires offset <= n - 1, offset >= 0;
        }
        Some(LABEL_W + offset * self.cell + offset / BEAT * BEAT_GAP)
    }

    /// The columns one page needs.
    pub fn width(cell: usize, count: usize) -> (w: usize)
        requires
            cell <= 3,
            count <= usize::MAX / 8,
        ensures
            w == page_width(cell as int, count as int),
    {
        proof {
            assert(count * cell <= count * 3) by (nonlinear_arith) requires cell <= 3;
        }
        let gaps = if count >= 1 { (count - 1) / BEAT } else { 0 };
        LABEL_W + count * cell + gaps * BEAT_GAP
    }
}

/// How many steps fit on a page of `cell` columns in `width`, counting down
/// from `n`: the most that fit, and never fewer than one.
pub open spec fn per_page_from(cell: int, n: int, width: int) -> int
    decreases n,
{
    if n <= 1 || page_width(cell, n) <= width { n } else { per_page_from(cell, n - 1, width) }
}

/// Work out how much of a pattern of `steps` steps fits in `width` columns,
/// and which part of it to show. The whole pattern at three columns a step,
/// or else at two; failing both, a page at the larger size that fits, the
/// page with the cursor's step on it.
pub open spec fn geometry_spec(steps: int, width: int, cursor: int) -> Geometry {
    let steps = if steps >= 1 { steps } else { 1 };
    if page_width(3, steps) <= width {
        Geometry { cell: 3, first: 0, count: steps as usize, pages: 1 }
    } else if page_width(2, steps) <= width {
        Geometry { cell: 2, first: 0, count: steps as usize, pages: 1 }
    } else {
        let top = if PAGE as int <= steps { PAGE as int } else { steps };
        let cell = if page_width(3, top) <= width { 3int } else { 2int };
        let per = per_page_from(cell, top, width);
        let pages = (steps + per - 1) / per;
        let page = if cursor / per < pages - 1 { cursor / per } else { pages - 1 };
        let first = page * per;
        Geometry {
            cell: cell as usize,
            first: first as usize,
            count: (if per < steps - first { per } else { steps - first }) as usize,
            pages: pages as usize,
        }
    }
}

/// The layout of the step grid for a pattern of `steps` steps in `width`
/// columns with the cursor on step `cursor`.
pub fn geometry(steps: usize, width: usize, cursor: usize) -> (g: Geometry)
    requires
        steps <= usize::MAX / 8,
    ensures
        g == geometry_spec(steps as int, width as int, cursor as int),
{
    let steps = if steps >= 1 { steps } else { 1 };
    if Geometry::width(3, steps) <= width {
        return Geometry { cell: 3, first: 0, count: steps, pages: 1 };
    }
    if Geometry::width(2, steps) <= width {
        return Geometry { cell: 2, first: 0, count: steps, pages: 1 };
    }
    let top = if PAGE <= steps { PAGE } else { steps };
    let cell: usize = if Geometry::width(3, top) <= width { 3 } else { 2 };
    let mut per_page = top;
    while per_page > 1 && Geometry::width(cell, per_page) > width
        invariant
            1 <= per_page <= top,
            top <= 16,
            cell == 2 || cell == 3,
            per_page_from(cell as int, top as int, width as int)
                == per_page_from(cell as int, per_page as int, width as int),
        decreases per_page,
    {
        per_page -= 1;
    }
    let pages = (steps + per_page - 1) / per_page;
    proof {
        assert(pages >= 1) by (nonlinear_arith)
            requires pages as int == (steps as int + per_page as int - 1) / (per_page as int), steps >= 1, per_page >= 1;
        assert((pages - 1) * per_page < steps) by (nonlinear_arith)
            requires pages as int == (steps as int + per_page as int - 1) / (per_page as int), per_page >= 1, steps >= 1;
    }
    let page = if cursor / per_page < pages - 1 { cursor / per_page } else { pages - 1 };
    proof {
        assert(page * per_page <= (pages - 1) * per_page) by (nonlinear_arith)
            requires page <= pages - 1;
    }
    let first = page * per_page;
    let count = if per_page < steps - first { per_page } else { steps - first };
    Geometry { cell, first, count, pages }
}

proof fn lemma_page_width_grows(cell: int, a: int, b: int)
    requires
        0 <= cell,
        1 <= a <= b,
    ensures
        page_width(cell, a) <= page_width(cell, b),
{
    assert(a * cell <= b * cell) by (nonlinear_arith) requires a <= b, cell >= 0;
    assert((a - 1) / (BEAT as int) <= (b - 1) / (BEAT as int)) by (nonlinear_arith) requires a <= b;
}

proof fn lemma_per_page(cell: int, n: int, width: int)
    requires
        n >= 1,
    ensures
        1 <= per_page_from(cell, n, width) <= n,
        per_page_from(cell, n, width) == 1 || page_width(cell, per_page_from(cell, n, width)) <= width,
        page_width(cell, n) <= width ==> per_page_from(cell, n, width) == n,
    decreases n,
{
    if n > 1 && page_width(cell, n) > width {
        lemma_per_page(cell, n - 1, width);
    }
}

/// **Steps are buttons, and a long pattern pages rather than shrinking.**
/// A step is never drawn narrower than two columns; a pattern that fits at
/// two columns is shown whole; otherwise, in a panel wide enough for one
/// step, the page drawn fits the panel and holds the cursor's step.
pub proof fn lemma_geometry(steps: int, width: int, cursor: int)
    requires
        1 <= steps <= usize::MAX / 8,
    ensures
        ({
            let g = geometry_spec(steps, width, cursor);
            &&& g.cell >= 2
            &&& g.count >= 1
            &&& page_width(2, steps) <= width ==> g.first == 0 && g.count == steps && g.pages == 1
            &&& width >= page_width(2, 1) ==> page_width(g.cell as int, g.count as int) <= width
            &&& 0 <= cursor < steps ==> g.first <= cursor < g.first + g.count
        }),
{
    let g = geometry_spec(steps, width, cursor);
    if page_width(3, steps) <= width || page_width(2, steps) <= width {
    } else {
        let top = if PAGE as int <= steps { PAGE as int } else { steps };
        let cell = if page_width(3, top) <= width { 3int } else { 2int };
        lemma_per_page(cell, top, width);
        let per = per_page_from(cell, top, width);
        let pages = (steps + per - 1) / per;
        assert(pages >= 1) by (nonlinear_arith) requires pages == (steps + per - 1) / per, steps >= 1, per >= 1;
        assert((pages - 1) * per < steps) by (nonlinear_arith)
            requires pages == (steps + per - 1) / per, per >= 1, steps >= 1;
        let page = if cursor / per < pages - 1 { cursor / per } else { pages - 1 };
        let first = page * per;
        assert(first <= (pages - 1) * per) by (nonlinear_arith) requires first == page * per, page <= pages - 1, per >= 1;
        let count = if per < steps - first { per } else { steps - first };
        assert(g.count == count);
        assert(count >= 1);
        if width >= page_width(2, 1) {
            lemma_page_width_grows(cell, count, per);
        }
        if 0 <= cursor < steps {
            assert(cursor / per <= pages - 1) by (nonlinear_arith)
                requires pages == (steps + per - 1) / per, per >= 1, cursor < steps, cursor >= 0;
            assert(page == cursor / per);
            assert(first <= cursor < first + per) by (nonlinear_arith)
                requires first == (cursor / per) * per, per >= 1, cursor >= 0;
        }
    }
}

/// The bands of controls the step grid's cursor walks down through.
#[derive(Clone, Copy, Debug, PartialEq, Eq, Structural)]
pub enum SeqBand {
    Grid,
    Step,
    Pattern,
    Slots,
}

/// The sections of the step grid view, top to bottom.
pub const HEADER: usize = 0;
pub const STRIP: usize = 1;
pub const RULER: usize = 2;
pub const GRID: usize = 3;
pub const COACH: usize = 4;
pub const STEP: usize = 5;
pub const READOUT: usize = 6;
pub const PATTERN: usize = 7;
pub const SLOTS: usize = 8;

/// The order sections are given up in when there is too little room.
pub open spec fn drop_order(k: int) -> int {
    if k == 0 { PATTERN as int }
    else if k == 1 { READOUT as int }
    else if k == 2 { COACH as int }
    else if k == 3 { SLOTS as int }
    else if k == 4 { STEP as int }
    else if k == 5 { STRIP as int }
    else { RULER as int }
}

/// The band with the cursor on it keeps its section.
pub open spec fn essential(index: int, band: SeqBand) -> bool {
    (index == STEP && band == SeqBand::Step)
        || (index == PATTERN && band == SeqBand::Pattern)
        || (index == SLOTS && band == SeqBand::Slots)
}

/// The rows a plan of sections takes.
pub open spec fn total(show: Seq<usize>) -> int
    decreases show.len(),
{
    if show.len() == 0 { 0 } else { total(show.drop_last()) + show.last() }
}

/// The plan after the first `k` sections in the drop order were considered:
/// each is given up while the plan is too tall, unless it is essential.
pub open spec fn dropped(show: Seq<usize>, band: SeqBand, height: int, k: int) -> Seq<usize>
    decreases k,
{
    if k <= 0 {
        show
    } else {
        let s = dropped(show, band, height, k - 1);
        if total(s) <= height || essential(drop_order(k - 1), band) {
            s
        } else {
            s.update(drop_order(k - 1), 0)
        }
    }
}

/// A kept section grown toward `wanted` rows by whatever room is spare.
pub open spec fn grown(s: Seq<usize>, index: int, wanted: int, height: int) -> Seq<usize> {
    if s[index] == 0 || s[index] >= wanted {
        s
    } else {
        let spare = if height > total(s) { height - total(s) } else { 0 };
        let more = if spare < wanted - s[index] { spare } else { wanted - s[index] };
        s.update(index, (s[index] + more) as usize)
    }
}

/// The sections of the view fitted to `height` rows: given up in priority
/// order until the rest fit, then the panels grown into what room is left,
/// the panel being used first.
pub open spec fn fit_spec(show: Seq<usize>, band: SeqBand, height: int, step_len: int, pattern_len: int) -> Seq<usize> {
    let s = dropped(show, band, height, 7);
    let s = if band == SeqBand::Step {
        grown(s, STEP as int, step_len, height)
    } else if band == SeqBand::Pattern {
        grown(s, PATTERN as int, pattern_len, height)
    } else {
        s
    };
    let s = grown(s, STEP as int, step_len, height);
    grown(s, PATTERN as int, pattern_len, height)
}

proof fn lemma_total_update(s: Seq<usize>, i: int, v: usize)
    requires
        0 <= i < s.len(),
    ensures
        total(s.update(i, v)) == total(s) - s[i] + v,
    decreases s.len(),
{
    if i < s.len() - 1 {
        lemma_total_update(s.drop_last(), i, v);
        assert(s.update(i, v).drop_last() =~= s.drop_last().update(i, v));
    } else {
        assert(s.update(i, v).drop_last() =~= s.drop_last());
    }
}

fn sum_of(show: &Vec<usize>) -> (n: usize)
    requires
        forall|i: int| 0 <= i < show@.len() ==> #[trigger] show@[i] <= 65535,
        show@.len() <= 9,
    ensures
        n == total(show@),
{
    let mut n: usize = 0;
    let mut i: usize = 0;
    while i < show.len()
        invariant
            i <= show@.len(),
            show@.len() <= 9,
            forall|k: int| 0 <= k < show@.len() ==> #[trigger] show@[k] <= 65535,
            n == total(show@.subrange(0, i as int)),
            n <= i * (65535),
        decreases show@.len() - i,
    {
        proof {
            assert(show@.subrange(0, i as int + 1).drop_last() =~= show@.subrange(0, i as int));
        }
        n = n + show[i];
        i += 1;
    }
    proof { assert(show@.subrange(0, show@.len() as int) =~= show@); }
    n
}

fn order_at(k: usize) -> (i: usize)
    requires
        k < 7,
    ensures
        i == drop_order(k as int),
{
    if k == 0 { PATTERN }
    else if k == 1 { READOUT }
    else if k == 2 { COACH }
    else if k == 3 { SLOTS }
    else if k == 4 { STEP }
    else if k == 5 { STRIP }
    else { RULER }
}

fn grow(show: &mut Vec<usize>, index: usize, wanted: usize, height: usize)
    requires
        old(show)@.len() == 9,
        index < 9,
        wanted <= 65535,
        forall|i: int| 0 <= i < 9 ==> #[trigger] old(show)@[i] <= 65535,
    ensures
        final(show)@ == grown(old(show)@, index as int, wanted as int, height as int),
        final(show)@.len() == 9,
        forall|i: int| 0 <= i < 9 ==> #[trigger] final(show)@[i] <= 65535,
{
    if show[index] == 0 || show[index] >= wanted {
        return;
    }
    let sum = sum_of(show);
    let spare = if height > sum { height - sum } else { 0 };
    let more = if spare < wanted - show[index] { spare } else { wanted - show[index] };
    let v = show[index] + more;
    show.set(index, v);
}

/// Fit the step grid's sections to `height` rows.
///
/// `show` is how many rows each section wants, top to bottom (header,
/// strip, ruler, grid, coaching, step panel, readout, pattern panel, slots),
/// with the two panels at one row each; `step_len` and `pattern_len` are
/// how tall those panels are whole.
pub fn fit_sections(show: Vec<usize>, band: SeqBand, height: usize, step_len: usize, pattern_len: usize) -> (fitted: Vec<usize>)
    requires
        show@.len() == 9,
        forall|i: int| 0 <= i < 9 ==> #[trigger] show@[i] <= 65535,
        step_len <= 65535,
        pattern_len <= 65535,
    ensures
        fitted@ == fit_spec(show@, band, height as int, step_len as int, pattern_len as int),
{
    let mut show = show;
    let ghost start = show@;
    let mut k: usize = 0;
    while k < 7
        invariant
            k <= 7,
            show@.len() == 9,
            forall|i: int| 0 <= i < 9 ==> #[trigger] show@[i] <= 65535,
            show@ == dropped(start, band, height as int, k as int),
        decreases 7 - k,
    {
        let index = order_at(k);
        let sum = sum_of(&show);
        let is_essential = (index == STEP && band == SeqBand::Step)
            || (index == PATTERN && band == SeqBand::Pattern)
            || (index == SLOTS && band == SeqBand::Slots);
        if sum > height && !is_essential {
            show.set(index, 0);
        }
        k += 1;
    }
    if band == SeqBand::Step {
        grow(&mut show, STEP, step_len, height);
    } else if band == SeqBand::Pattern {
        grow(&mut show, PATTERN, pattern_len, height);
    }
    grow(&mut show, STEP, step_len, height);
    grow(&mut show, PATTERN, pattern_len, height);
    show
}

/// Which lanes get a row: a window of `lane_window` lanes (at least one, at
/// most all eight) kept round the cursor's lane, roughly centred.
pub open spec fn lane_start(lane_window: int, cursor: int) -> int {
    let window = if lane_window < 1 { 1 } else if lane_window > LANES as int { LANES as int } else { lane_window };
    let back = cursor - window / 2;
    let from = if back < 0 { 0 } else { back };
    if from < LANES as int - window { from } else { LANES as int - window }
}

/// The lanes that get a row, in the order they are drawn.
pub fn lane_rows(lane_window: usize, cursor: usize) -> (rows: Vec<usize>)
    ensures
        ({
            let window = if lane_window < 1 { 1 } else if lane_window > LANES { LANES as int } else { lane_window as int };
            &&& rows@.len() == window
            &&& forall|i: int| 0 <= i < window ==> #[trigger] rows@[i] == lane_start(lane_window as int, cursor as int) + i
        }),
{
    let window = if lane_window < 1 { 1 } else if lane_window > LANES { LANES } else { lane_window };
    let back = if cursor >= window / 2 { cursor - window / 2 } else { 0 };
    let start = if back < LANES - window { back } else { LANES - window };
    let mut rows: Vec<usize> = Vec::new();
    let mut i: usize = 0;
    while i < window
        invariant
            i <= window,
            window <= LANES,
            start + window <= LANES,
            start == lane_start(lane_window as int, cursor as int),
            rows@.len() == i,
            forall|k: int| 0 <= k < i ==> #[trigger] rows@[k] == start + k,
        decreases window - i,
    {
        rows.push(start + i);
        i += 1;
    }
    rows
}

/// **Walking down a kit scrolls the rows rather than losing them.** The
/// cursor's lane always has a row, and every row is a lane.
pub proof fn lemma_lane_rows_hold_cursor(lane_window: int, cursor: int)
    requires
        0 <= cursor < LANES,
    ensures
        ({
            let window = if lane_window < 1 { 1 } else if lane_window > LANES as int { LANES as int } else { lane_window };
            let start = lane_start(lane_window, cursor);
            &&& 0 <= start
            &&& start + window <= LANES
            &&& start <= cursor < start + window
        }),
{
}

/// Put text into a pre-allocated row of cells, starting at column `x`; what
/// runs past the end of the row is dropped.
pub fn write_text(row: &mut Vec<(char, Style)>, x: usize, text: &str, style: Style)
    ensures
        final(row)@.len() == old(row)@.len(),
        forall|i: int| 0 <= i < old(row)@.len() ==> #[trigger] final(row)@[i] == (
            if x <= i < x + text@.len() { (text@[i - x], style) } else { old(row)@[i] }),
{
    let n = crate::text::char_count(text);
    let mut offset: usize = 0;
    while offset < n
        invariant
            n == text@.len(),
            offset <= n,
            row@.len() == old(row)@.len(),
            forall|i: int| 0 <= i < old(row)@.len() ==> #[trigger] row@[i] == (
                if x <= i < x + offset { (text@[i - x], style) } else { old(row)@[i] }),
        decreases n - offset,
    {
        if x < row.len() && offset < row.len() - x {
            let c = text.get_char(offset);
            row.set(x + offset, (c, style));
        }
        offset += 1;
    }
}

/// The running light: the column the pattern is on, inverted, in the
/// theme's brightest colour on its darkest.
pub fn light(t: &ActiveTheme) -> (s: Style)
    ensures
        s == bolded(colors(active(t).bg, crate::style::Color::Rgb(255, 200, 50))),
{
    Style::new().fg(theme::bg_val(t)).bg(theme::playhead_fg()).bold()
}

proof fn lemma_total_nine(s: Seq<usize>)
    requires
        s.len() == 9,
    ensures
        total(s) == s[0] + s[1] + s[2] + s[3] + s[4] + s[5] + s[6] + s[7] + s[8],
{
    reveal_with_fuel(total, 10);
    assert(s.drop_last().drop_last().drop_last().drop_last().drop_last().drop_last().drop_last().drop_last().drop_last() =~= Seq::<usize>::empty());
}

proof fn lemma_dropped(show: Seq<usize>, band: SeqBand, height: int, k: int)
    requires
        show.len() == 9,
        0 <= k <= 7,
    ensures
        dropped(show, band, height, k).len() == 9,
        forall|i: int| 0 <= i < 9 ==> {
            let d = #[trigger] dropped(show, band, height, k)[i];
            d == show[i] || d == 0
        },
        forall|i: int| 0 <= i < 9 && (i == HEADER || i == GRID || essential(i, band))
            ==> #[trigger] dropped(show, band, height, k)[i] == show[i],
        forall|j: int| k <= j < 7 ==> dropped(show, band, height, k)[#[trigger] drop_order(j)] == show[drop_order(j)],
        total(dropped(show, band, height, k)) > height ==> forall|j: int| 0 <= j < k && !essential(drop_order(j), band)
            ==> dropped(show, band, height, k)[#[trigger] drop_order(j)] == 0,
        forall|j: int, jj: int| #![trigger drop_order(j), drop_order(jj)] 0 <= jj < j < k
            && dropped(show, band, height, k)[drop_order(j)] == 0 && show[drop_order(j)] > 0
            && !essential(drop_order(jj), band)
            ==> dropped(show, band, height, k)[drop_order(jj)] == 0,
    decreases k,
{
    if k > 0 {
        lemma_dropped(show, band, height, k - 1);
        let s = dropped(show, band, height, k - 1);
        if total(s) <= height || essential(drop_order(k - 1), band) {
        } else {
            lemma_total_update(s, drop_order(k - 1), 0);
            lemma_total_nine(s);
        }
    }
}

proof fn lemma_grown(s: Seq<usize>, index: int, wanted: int, height: int)
    requires
        s.len() == 9,
        0 <= index < 9,
        wanted <= 65535,
    ensures
        grown(s, index, wanted, height).len() == 9,
        forall|i: int| 0 <= i < 9 && i != index ==> #[trigger] grown(s, index, wanted, height)[i] == s[i],
        grown(s, index, wanted, height)[index] >= s[index],
        s[index] > 0 ==> grown(s, index, wanted, height)[index] > 0,
        total(s) <= height ==> total(grown(s, index, wanted, height)) <= height,
        total(s) > height ==> grown(s, index, wanted, height) == s,
{
    if s[index] == 0 || s[index] >= wanted {
    } else {
        let spare = if height > total(s) { height - total(s) } else { 0 };
        let more = if spare < wanted - s[index] { spare } else { wanted - s[index] };
        lemma_total_update(s, index, (s[index] + more) as usize);
        if total(s) > height {
            assert(s.update(index, (s[index] + more) as usize) =~= s);
        }
    }
}

/// **The band being used is never dropped, and what is left fits.** Fitting
/// keeps the header and the lanes, never shrinks the section with the
/// cursor in it, never grows the other fixed sections, gives up the ruler
/// only after every other section that can be given up, and comes out no
/// taller than the terminal whenever the sections it may not give up fit.
pub proof fn lemma_fit_sections(show: Seq<usize>, band: SeqBand, height: int, step_len: int, pattern_len: int)
    requires
        show.len() == 9,
        step_len <= 65535,
        pattern_len <= 65535,
    ensures
        ({
            let f = fit_spec(show, band, height, step_len, pattern_len);
            &&& f.len() == 9
            &&& f[HEADER as int] == show[HEADER as int]
            &&& f[GRID as int] == show[GRID as int]
            &&& forall|i: int| 0 <= i < 9 && essential(i, band) ==> #[trigger] f[i] >= show[i]
            &&& forall|i: int| 0 <= i < 9 && i != STEP && i != PATTERN ==> (#[trigger] f[i] == show[i] || f[i] == 0)
            &&& (show[HEADER as int] + show[GRID as int]
                    + (if band == SeqBand::Step { show[STEP as int] as int }
                       else if band == SeqBand::Pattern { show[PATTERN as int] as int }
                       else if band == SeqBand::Slots { show[SLOTS as int] as int }
                       else { 0 }) <= height
                ==> total(f) <= height)
            &&& (f[RULER as int] == 0 && show[RULER as int] > 0) ==> forall|j: int| 0 <= j < 6
                    && !essential(drop_order(j), band) ==> f[#[trigger] drop_order(j)] == 0
        }),
{
    lemma_dropped(show, band, height, 7);
    let d = dropped(show, band, height, 7);
    lemma_total_nine(d);
    let core = show[HEADER as int] + show[GRID as int]
        + (if band == SeqBand::Step { show[STEP as int] as int }
           else if band == SeqBand::Pattern { show[PATTERN as int] as int }
           else if band == SeqBand::Slots { show[SLOTS as int] as int }
           else { 0 });
    if total(d) > height {
        assert(d[drop_order(0)] == 0 || essential(drop_order(0), band));
        assert(d[drop_order(1)] == 0 || essential(drop_order(1), band));
        assert(d[drop_order(2)] == 0 || essential(drop_order(2), band));
        assert(d[drop_order(3)] == 0 || essential(drop_order(3), band));
        assert(d[drop_order(4)] == 0 || essential(drop_order(4), band));
        assert(d[drop_order(5)] == 0 || essential(drop_order(5), band));
        assert(d[drop_order(6)] == 0 || essential(drop_order(6), band));
        assert(total(d) == core);
    }
    let s1 = if band == SeqBand::Step {
        grown(d, STEP as int, step_len, height)
    } else if band == SeqBand::Pattern {
        grown(d, PATTERN as int, pattern_len, height)
    } else {
        d
    };
    if band == SeqBand::Step {
        lemma_grown(d, STEP as int, step_len, height);
    } else if band == SeqBand::Pattern {
        lemma_grown(d, PATTERN as int, pattern_len, height);
    }
    let s2 = grown(s1, STEP as int, step_len, height);
    lemma_grown(s1, STEP as int, step_len, height);
    lemma_grown(s2, PATTERN as int, pattern_len, height);
    let f = fit_spec(show, band, height, step_len, pattern_len);
    if f[RULER as int] == 0 && show[RULER as int] > 0 {
        assert(d[RULER as int] == 0);
        assert(drop_order(6) == RULER);
    }
}

} // verus!
