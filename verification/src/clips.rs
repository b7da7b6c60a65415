//! A track row's clip area, as a grid of styled cells: bar lines, the clips
//! placed by their ticks on the same grid as the bar lines, the divider and
//! the track's name along the bottom, and the playhead through all of it.
//!
//! The grid is painted in layers, and each layer decides a cell from what
//! the layers under it left there; so what lands in a cell is stated here
//! cell by cell, as those layers composed.

use vstd::prelude::*;

use crate::style::{colors, on, Color, Style};
use crate::text::{decimal, decimal_spec};
use crate::theme::{self, active, dim_color_spec, ActiveTheme};
use crate::top_bar::VISIBLE_BARS;

verus! {

/// One clip on a track, as the clip area reads it.
#[derive(Clone, Copy, Debug, PartialEq, Eq, Structural)]
pub struct ClipBox {
    pub start_tick: u64,
    pub length_ticks: u64,
    /// Whether it has anything in it; an empty clip is drawn as a frame.
    pub has_content: bool,
    /// The number it is called by.
    pub number: u64,
}

/// How the track owning the row is drawn.
#[derive(Clone, Copy, Debug, PartialEq, Eq, Structural)]
pub struct RowLook {
    /// The track's colour.
    pub colour: Color,
    /// The track is selected, so one of its elements has the keys.
    pub selected: bool,
    /// Muted, or silenced by another track's solo.
    pub dimmed: bool,
    /// The clip the track's element cursor is on, if it is on a clip.
    pub clip_cursor: Option<usize>,
}

/// One cell of the grid.
pub type Cell = (char, Style);

/// A colour `pct` percent of the way from the background toward `tc`, each
/// channel kept to its low eight bits.
pub open spec fn tint(tc: Color, bg: Color, pct: int) -> Color {
    Color::Rgb(
        (theme::red_of(tc) * pct / 100 + theme::red_of(bg)) as u8,
        (theme::green_of(tc) * pct / 100 + theme::green_of(bg)) as u8,
        (theme::blue_of(tc) * pct / 100 + theme::blue_of(bg)) as u8,
    )
}

fn tint_of(tc: Color, bg: Color, pct: u16) -> (c: Color)
    requires
        pct <= 100,
    ensures
        c == tint(tc, bg, pct as int),
{
    let (tr, tg, tb) = (theme::tc_r(tc) as u16, theme::tc_g(tc) as u16, theme::tc_b(tc) as u16);
    assert(tr * pct <= 25500 && tg * pct <= 25500 && tb * pct <= 25500) by (nonlinear_arith)
        requires
            tr <= 255,
            tg <= 255,
            tb <= 255,
            pct <= 100,
    ;
    let r = tr * pct / 100 + theme::tc_r(bg) as u16;
    let g = tg * pct / 100 + theme::tc_g(bg) as u16;
    let b = tb * pct / 100 + theme::tc_b(bg) as u16;
    Color::Rgb(#[verifier::truncate] (r as u8), #[verifier::truncate] (g as u8), #[verifier::truncate] (b as u8))
}

/// What painting one clip does, worked out once: the columns it covers, the
/// style of its top edge (a clip with content only), of its body and of its
/// bottom edge, and its number with the style it is written in.
pub struct ClipPaint {
    pub cx: usize,
    pub ce: usize,
    pub top: Option<Style>,
    pub body: Style,
    pub bottom: Style,
    pub digits: String,
    pub number_style: Style,
}

/// A clip's paint as a plain value.
pub struct PaintView {
    pub cx: int,
    pub ce: int,
    pub top: Option<Style>,
    pub body: Style,
    pub bottom: Style,
    pub digits: Seq<char>,
    pub number_style: Style,
}

impl ClipPaint {
    pub open spec fn view(&self) -> PaintView {
        PaintView {
            cx: self.cx as int,
            ce: self.ce as int,
            top: self.top,
            body: self.body,
            bottom: self.bottom,
            digits: self.digits@,
            number_style: self.number_style,
        }
    }
}

/// The first column of a clip: its start on the same grid as the bar lines.
pub open spec fn clip_x(start: int, w: int, ticks_per_bar: int) -> int {
    start * w / (16 * ticks_per_bar)
}

/// How one clip is painted, on a row `w` wide.
///
/// The focused clip is tinted 18% of the track's colour into the
/// background and one with content 8%; the edges and the number follow the
/// track being dimmed, the clip having the focus, and the clip having
/// anything in it.
pub open spec fn paint_spec(t: &ActiveTheme, look: RowLook, clip: ClipBox, index: int, w: int, ticks_per_bar: int) -> PaintView {
    let tc = look.colour;
    let bg = active(t).bg;
    let focused = look.selected && look.clip_cursor == Some(index as usize) && 0 <= index;
    let x = clip_x(clip.start_tick as int, w, ticks_per_bar);
    let cx = if x <= w { x } else { w };
    let ce0 = clip_x(clip.start_tick + clip.length_ticks, w, ticks_per_bar);
    let ce1 = if ce0 >= x + 1 { ce0 } else { x + 1 };
    let ce = if ce1 <= w { ce1 } else { w };
    let cbg = if focused { tint(tc, bg, 18) } else if clip.has_content { tint(tc, bg, 8) } else { bg };
    let cfg = if look.dimmed {
        dim_color_spec(tc, 18)
    } else if focused {
        tc
    } else if clip.has_content {
        dim_color_spec(tc, 55)
    } else {
        dim_color_spec(tc, 20)
    };
    let afg = if look.dimmed { dim_color_spec(tc, 25) } else if focused { tc } else { dim_color_spec(tc, 65) };
    PaintView {
        cx,
        ce,
        top: if clip.has_content { Some(colors(afg, cbg)) } else { None },
        body: colors(dim_color_spec(tc, 15), cbg),
        bottom: colors(if clip.has_content { cfg } else { dim_color_spec(tc, 12) }, cbg),
        digits: decimal_spec(clip.number as nat),
        number_style: colors(
            if focused { active(t).amber_bright } else { dim_color_spec(tc, if look.dimmed { 20 } else { 40 }) },
            cbg,
        ),
    }
}

/// Clip ticks that the arithmetic of a `w`-wide row can hold.
pub open spec fn fits(clip: ClipBox, w: int) -> bool {
    &&& clip.start_tick + clip.length_ticks <= u64::MAX
    &&& (clip.start_tick + clip.length_ticks) * w <= u64::MAX
}

/// The clips painted, from `k` on: each in turn, up to the first that starts
/// past the right edge, where the painting stops.
pub open spec fn paints_from(t: &ActiveTheme, look: RowLook, clips: Seq<ClipBox>, w: int, ticks_per_bar: int, k: int) -> Seq<PaintView>
    decreases clips.len() - k,
{
    if k < 0 || k >= clips.len() {
        Seq::empty()
    } else if clip_x(clips[k].start_tick as int, w, ticks_per_bar) >= w {
        Seq::empty()
    } else {
        seq![paint_spec(t, look, clips[k], k, w, ticks_per_bar)] + paints_from(t, look, clips, w, ticks_per_bar, k + 1)
    }
}

fn clip_paint(t: &ActiveTheme, look: &RowLook, clip: &ClipBox, index: usize, w: usize, ticks_per_bar: u64) -> (p: ClipPaint)
    requires
        fits(*clip, w as int),
        0 < ticks_per_bar <= u64::MAX / 16,
    ensures
        p.view() == paint_spec(t, *look, *clip, index as int, w as int, ticks_per_bar as int),
{
    let tc = look.colour;
    let bg = theme::bg_val(t);
    let focused = look.selected && match look.clip_cursor {
        Some(i) => i == index,
        None => false,
    };
    let total = 16 * ticks_per_bar;
    let ww = w as u64;
    let end = clip.start_tick + clip.length_ticks;
    assert(clip.start_tick as int * w as int <= end as int * w as int) by (nonlinear_arith)
        requires
            clip.start_tick <= end,
    ;
    assert(end as int * (w as int) / (total as int) <= end as int * (w as int)) by (nonlinear_arith)
        requires
            total >= 1,
            end as int * (w as int) >= 0,
    ;
    let cx64 = clip.start_tick * ww / total;
    let ce64 = end * ww / total;
    proof {
        let a = clip.start_tick as int * (w as int);
        let b = end as int * (w as int);
        let d = total as int;
        assert(a <= b);
        assert(a / d <= b / d) by (nonlinear_arith)
            requires
                a <= b,
                d >= 1,
        ;
        assert(b / d <= b) by (nonlinear_arith)
            requires
                0 <= b,
                d >= 1,
        ;
        assert(b / d < u64::MAX) by (nonlinear_arith)
            requires
                0 <= b <= u64::MAX,
                d >= 2,
        ;
    }
    let cx: usize = if cx64 <= ww { cx64 as usize } else { w };
    let ce1: u64 = if ce64 >= cx64 + 1 { ce64 } else { cx64 + 1 };
    let ce: usize = if ce1 <= ww { ce1 as usize } else { w };
    let cbg = if focused {
        tint_of(tc, bg, 18)
    } else if clip.has_content {
        tint_of(tc, bg, 8)
    } else {
        bg
    };
    let cfg = if look.dimmed {
        theme::dim_color(tc, 18)
    } else if focused {
        tc
    } else if clip.has_content {
        theme::dim_color(tc, 55)
    } else {
        theme::dim_color(tc, 20)
    };
    let afg = if look.dimmed {
        theme::dim_color(tc, 25)
    } else if focused {
        tc
    } else {
        theme::dim_color(tc, 65)
    };
    let top = if clip.has_content { Some(Style::new().fg(afg).bg(cbg)) } else { None };
    let body = Style::new().fg(theme::dim_color(tc, 15)).bg(cbg);
    let bottom = Style::new().fg(if clip.has_content { cfg } else { theme::dim_color(tc, 12) }).bg(cbg);
    let number_fg = if focused {
        theme::amber_bright_val(t)
    } else {
        theme::dim_color(tc, if look.dimmed { 20 } else { 40 })
    };
    let p = ClipPaint {
        cx,
        ce,
        top,
        body,
        bottom,
        digits: decimal(clip.number),
        number_style: Style::new().fg(number_fg).bg(cbg),
    };
    proof {
        let spec = paint_spec(t, *look, *clip, index as int, w as int, ticks_per_bar as int);
        assert(focused == (look.selected && look.clip_cursor == Some(index) && 0 <= index));
        assert(cx64 == clip_x(clip.start_tick as int, w as int, ticks_per_bar as int));
        assert(ce64 == clip_x(clip.start_tick + clip.length_ticks, w as int, ticks_per_bar as int));
    }
    p
}

/// Every clip that is painted, in order, stopping at the first that starts
/// past the right edge.
pub fn clip_paints(t: &ActiveTheme, look: &RowLook, clips: &Vec<ClipBox>, w: usize, ticks_per_bar: u64) -> (paints: Vec<ClipPaint>)
    requires
        forall|i: int| 0 <= i < clips.len() ==> fits(#[trigger] clips@[i], w as int),
        0 < ticks_per_bar <= u64::MAX / 16,
    ensures
        paints@.map_values(|p: ClipPaint| p.view()) == paints_from(t, *look, clips@, w as int, ticks_per_bar as int, 0),
        forall|i: int| 0 <= i < paints.len() ==> #[trigger] paints@[i].cx < w && paints@[i].cx < paints@[i].ce <= w,
{
    let mut paints: Vec<ClipPaint> = Vec::new();
    let mut k: usize = 0;
    while k < clips.len()
        invariant
            k <= clips.len(),
            forall|i: int| 0 <= i < clips.len() ==> fits(#[trigger] clips@[i], w as int),
            0 < ticks_per_bar <= u64::MAX / 16,
            paints@.map_values(|p: ClipPaint| p.view()) + paints_from(t, *look, clips@, w as int, ticks_per_bar as int, k as int)
                == paints_from(t, *look, clips@, w as int, ticks_per_bar as int, 0),
            forall|i: int| 0 <= i < paints.len() ==> #[trigger] paints@[i].cx < w && paints@[i].cx < paints@[i].ce <= w,
        decreases clips.len() - k,
    {
        let p = clip_paint(t, look, &clips[k], k, w, ticks_per_bar);
        if p.cx >= w {
            proof {
                let x = clip_x(clips@[k as int].start_tick as int, w as int, ticks_per_bar as int);
                assert(p.cx as int == (if x <= w { x } else { w as int }));
                assert(paints_from(t, *look, clips@, w as int, ticks_per_bar as int, k as int) =~= Seq::empty());
                assert(paints@.map_values(|p: ClipPaint| p.view()) =~= paints@.map_values(|p: ClipPaint| p.view()) + Seq::<PaintView>::empty());
            }
            return paints;
        }
        let ghost before = paints@;
        paints.push(p);
        proof {
            assert(paints@.map_values(|p: ClipPaint| p.view()) =~= before.map_values(|p: ClipPaint| p.view()).push(p.view()));
            assert(paints_from(t, *look, clips@, w as int, ticks_per_bar as int, k as int)
                =~= seq![p.view()] + paints_from(t, *look, clips@, w as int, ticks_per_bar as int, k as int + 1));
            assert forall|i: int| 0 <= i < paints.len() implies #[trigger] paints@[i].cx < w && paints@[i].cx < paints@[i].ce <= w by {
                if i < before.len() {
                    assert(paints@[i] == before[i]);
                }
            }
        }
        k += 1;
    }
    proof {
        assert(paints_from(t, *look, clips@, w as int, ticks_per_bar as int, k as int) =~= Seq::empty());
        assert(paints@.map_values(|p: ClipPaint| p.view()) =~= paints@.map_values(|p: ClipPaint| p.view()) + Seq::<PaintView>::empty());
    }
    paints
}

/// A cell before any clip is painted: a bar line where a bar after the first
/// starts, heavy every fourth bar, and the background elsewhere.
pub open spec fn base_cell(t: &ActiveTheme, w: int, x: int) -> Cell {
    let bw = w / (VISIBLE_BARS as int);
    let bg = active(t).bg;
    if bw > 0 && x >= bw && x % bw == 0 && x / bw < VISIBLE_BARS && x < w {
        let major = (x / bw) % 4 == 0;
        (
            if major { '\u{2502}' } else { '\u{2506}' },
            colors(if major { theme::lighten_spec(bg, 10) } else { theme::lighten_spec(bg, 6) }, bg),
        )
    } else {
        (' ', on(bg))
    }
}

/// One clip painted over a cell of row `r` of `h`: the top edge on the first
/// row, the frame on the rows between, the bottom edge on the last where
/// nothing has been drawn yet, and the clip's number on the second row.
pub open spec fn paint_cell(cell: Cell, r: int, x: int, p: PaintView, h: int) -> Cell {
    if x < p.cx || x >= p.ce {
        cell
    } else {
        let v1 = if r == 0 && p.top.is_some() { ('\u{2580}', p.top.unwrap()) } else { cell };
        let v2 = if 1 <= r && r + 1 < h {
            (if x == p.cx || x + 1 == p.ce { '\u{2502}' } else { ' ' }, p.body)
        } else {
            v1
        };
        let v3 = if r + 1 == h && v2.0 == ' ' { ('\u{2581}', p.bottom) } else { v2 };
        let i = x - p.cx - 1;
        if r == 1 && h > 1 && 0 <= i < p.digits.len() { (p.digits[i], p.number_style) } else { v3 }
    }
}

/// Every clip painted over a cell, in order.
pub open spec fn apply_paints(cell: Cell, r: int, x: int, paints: Seq<PaintView>, h: int) -> Cell
    decreases paints.len(),
{
    if paints.len() == 0 {
        cell
    } else {
        paint_cell(apply_paints(cell, r, x, paints.drop_last(), h), r, x, paints.last(), h)
    }
}

/// What ends up in cell `(r, x)`: the bar lines, the clips over them, the
/// divider from the second bar on along the bottom row, the track's name in
/// the first bar of it, and the playhead through every row.
pub open spec fn cell_spec(
    t: &ActiveTheme,
    look: RowLook,
    paints: Seq<PaintView>,
    name: Seq<char>,
    playhead: Option<usize>,
    w: int,
    h: int,
    r: int,
    x: int,
) -> Cell {
    let bw = w / (VISIBLE_BARS as int);
    let bg = active(t).bg;
    let c1 = apply_paints(base_cell(t, w, x), r, x, paints, h);
    let c2 = if r + 1 == h && bw <= x { ('\u{2500}', colors(active(t).border, bg)) } else { c1 };
    let c3 = if r + 1 == h && 1 <= x && x - 1 < name.len() && x < bw {
        (name[x - 1], colors(dim_color_spec(look.colour, if look.dimmed { 30 } else { 65 }), bg))
    } else {
        c2
    };
    if playhead == Some(x as usize) {
        ('\u{2502}', colors(active(t).amber, match c3.1.bg { Some(b) => b, None => bg }))
    } else {
        c3
    }
}

fn paint_one(cell: Cell, r: usize, x: usize, p: &ClipPaint, h: usize) -> (c: Cell)
    ensures
        c == paint_cell(cell, r as int, x as int, p.view(), h as int),
{
    if x < p.cx || x >= p.ce {
        return cell;
    }
    let v1 = if r == 0 && p.top.is_some() {
        ('\u{2580}', p.top.unwrap())
    } else {
        cell
    };
    let v2 = if 1 <= r && r < h && r < h - 1 {
        (if x == p.cx || x == p.ce - 1 { '\u{2502}' } else { ' ' }, p.body)
    } else {
        v1
    };
    let v3 = if h >= 1 && r == h - 1 && v2.0 == ' ' { ('\u{2581}', p.bottom) } else { v2 };
    if r == 1 && h > 1 && x > p.cx {
        let i = x - p.cx - 1;
        if i < crate::text::char_count(p.digits.as_str()) {
            return (p.digits.as_str().get_char(i), p.number_style);
        }
    }
    v3
}

fn cell_at(
    t: &ActiveTheme,
    look: &RowLook,
    paints: &Vec<ClipPaint>,
    name: &str,
    playhead: Option<usize>,
    w: usize,
    h: usize,
    r: usize,
    x: usize,
) -> (c: Cell)
    requires
        x < w,
        r < h,
    ensures
        c == cell_spec(t, *look, paints@.map_values(|p: ClipPaint| p.view()), name@, playhead, w as int, h as int, r as int, x as int),
{
    let ghost views = paints@.map_values(|p: ClipPaint| p.view());
    let bw = w / VISIBLE_BARS;
    let bg = theme::bg_val(t);
    let mut c: Cell = if bw > 0 && x >= bw && x % bw == 0 && x / bw < VISIBLE_BARS {
        let major = (x / bw) % 4 == 0;
        (
            if major { '\u{2502}' } else { '\u{2506}' },
            Style::new().fg(if major { theme::grid_major(t) } else { theme::grid_minor(t) }).bg(bg),
        )
    } else {
        (' ', theme::bg(t))
    };
    let ghost base = c;
    let mut k: usize = 0;
    while k < paints.len()
        invariant
            k <= paints.len(),
            views == paints@.map_values(|p: ClipPaint| p.view()),
            c == apply_paints(base, r as int, x as int, views.subrange(0, k as int), h as int),
        decreases paints.len() - k,
    {
        c = paint_one(c, r, x, &paints[k], h);
        proof {
            assert(views.subrange(0, k as int + 1).drop_last() =~= views.subrange(0, k as int));
        }
        k += 1;
    }
    assert(views.subrange(0, paints.len() as int) =~= views);
    if r + 1 == h && bw <= x {
        c = ('\u{2500}', theme::border_style(t));
    }
    if r + 1 == h && 1 <= x && x < bw {
        if x - 1 < crate::text::char_count(name) {
            let fg = theme::dim_color(look.colour, if look.dimmed { 30 } else { 65 });
            c = (name.get_char(x - 1), Style::new().fg(fg).bg(bg));
        }
    }
    if let Some(px) = playhead {
        if px == x {
            let under = match c.1.bg {
                Some(b) => b,
                None => bg,
            };
            c = ('\u{2502}', Style::new().fg(theme::amber_val(t)).bg(under));
        }
    }
    c
}

/// The clip area's cells, row by row, as `cell_spec` states them; nothing
/// at all when the area is too narrow for a column a bar.
pub open spec fn grid_spec(
    t: &ActiveTheme,
    look: RowLook,
    clips: Seq<ClipBox>,
    ticks_per_bar: int,
    name: Seq<char>,
    playhead: Option<usize>,
    w: int,
    h: int,
) -> Seq<Seq<Cell>> {
    if w == 0 || h == 0 || w / (VISIBLE_BARS as int) == 0 {
        Seq::empty()
    } else {
        let paints = paints_from(t, look, clips, w, ticks_per_bar, 0);
        Seq::new(h as nat, |r: int| Seq::new(w as nat, |x: int| cell_spec(t, look, paints, name, playhead, w, h, r, x)))
    }
}

/// Build the clip area of a track row, `w` cells by `h`. `name` is the
/// track's name as the row prints it, and `playhead` the column the playhead
/// is in while the transport plays.
pub fn clip_grid(
    t: &ActiveTheme,
    look: &RowLook,
    clips: &Vec<ClipBox>,
    ticks_per_bar: u64,
    name: &str,
    playhead: Option<usize>,
    w: usize,
    h: usize,
) -> (grid: Vec<Vec<Cell>>)
    requires
        forall|i: int| 0 <= i < clips.len() ==> fits(#[trigger] clips@[i], w as int),
        0 < ticks_per_bar <= u64::MAX / 16,
    ensures
        grid@.len() == grid_spec(t, *look, clips@, ticks_per_bar as int, name@, playhead, w as int, h as int).len(),
        forall|r: int| 0 <= r < grid@.len() ==> #[trigger] grid@[r]@
            == grid_spec(t, *look, clips@, ticks_per_bar as int, name@, playhead, w as int, h as int)[r],
{
    let mut grid: Vec<Vec<Cell>> = Vec::new();
    if w == 0 || h == 0 || w / VISIBLE_BARS == 0 {
        return grid;
    }
    let paints = clip_paints(t, look, clips, w, ticks_per_bar);
    let ghost spec = grid_spec(t, *look, clips@, ticks_per_bar as int, name@, playhead, w as int, h as int);
    let mut r: usize = 0;
    while r < h
        invariant
            r <= h,
            w > 0,
            h > 0,
            w / VISIBLE_BARS > 0,
            spec == grid_spec(t, *look, clips@, ticks_per_bar as int, name@, playhead, w as int, h as int),
            paints@.map_values(|p: ClipPaint| p.view()) == paints_from(t, *look, clips@, w as int, ticks_per_bar as int, 0),
            grid@.len() == r,
            forall|k: int| 0 <= k < r ==> #[trigger] grid@[k]@ == spec[k],
        decreases h - r,
    {
        let mut row: Vec<Cell> = Vec::new();
        let mut x: usize = 0;
        while x < w
            invariant
                x <= w,
                r < h,
                w > 0,
                h > 0,
                w / VISIBLE_BARS > 0,
                spec == grid_spec(t, *look, clips@, ticks_per_bar as int, name@, playhead, w as int, h as int),
                paints@.map_values(|p: ClipPaint| p.view()) == paints_from(t, *look, clips@, w as int, ticks_per_bar as int, 0),
                row@ =~= spec[r as int].subrange(0, x as int),
            decreases w - x,
        {
            let c = cell_at(t, look, &paints, name, playhead, w, h, r, x);
            row.push(c);
            x += 1;
        }
        assert(row@ =~= spec[r as int]);
        let ghost before = grid@;
        grid.push(row);
        proof {
            assert forall|k: int| 0 <= k < r + 1 implies #[trigger] grid@[k]@ == spec[k] by {
                if k < r {
                    assert(grid@[k] == before[k]);
                }
            }
        }
        r += 1;
    }
    grid
}

/// On a row whose width is a whole number of columns a bar, a clip that
/// starts on a bar starts on that bar's line: clips and bar lines are placed
/// on one grid.
pub proof fn lemma_clip_starts_on_bar_line(bar: int, w: int, ticks_per_bar: int)
    requires
        0 <= bar,
        w > 0,
        w % (VISIBLE_BARS as int) == 0,
        ticks_per_bar > 0,
    ensures
        clip_x(bar * ticks_per_bar, w, ticks_per_bar) == bar * (w / (VISIBLE_BARS as int)),
{
    let bw = w / 16;
    assert(w == 16 * bw);
    assert(bar * ticks_per_bar * w == (bar * bw) * (16 * ticks_per_bar)) by (nonlinear_arith)
        requires
            w == 16 * bw,
    ;
    assert((bar * bw) * (16 * ticks_per_bar) / (16 * ticks_per_bar) == bar * bw) by (nonlinear_arith)
        requires
            ticks_per_bar > 0,
    ;
}

/// The lower-case form of a text, as `str::to_lowercase` gives it.
pub uninterp spec fn lowercased(text: Seq<char>) -> Seq<char>;

/// Calls `str::to_lowercase`, which maps each character to its lower-case
/// form by the Unicode tables; the result is named, not described.
#[verifier::external_body]
pub(crate) fn lowercase(text: &str) -> (s: String)
    ensures
        s@ == lowercased(text@),
{
    text.to_lowercase()
}

/// A track row's clip area, with the track's name written in lower case
/// along the bottom, as the row shows it.
pub fn track_clip_grid(
    t: &ActiveTheme,
    look: &RowLook,
    clips: &Vec<ClipBox>,
    ticks_per_bar: u64,
    name: &str,
    playhead: Option<usize>,
    w: usize,
    h: usize,
) -> (grid: Vec<Vec<Cell>>)
    requires
        forall|i: int| 0 <= i < clips.len() ==> fits(#[trigger] clips@[i], w as int),
        0 < ticks_per_bar <= u64::MAX / 16,
    ensures
        grid@.len() == grid_spec(t, *look, clips@, ticks_per_bar as int, lowercased(name@), playhead, w as int, h as int).len(),
        forall|r: int| 0 <= r < grid@.len() ==> #[trigger] grid@[r]@
            == grid_spec(t, *look, clips@, ticks_per_bar as int, lowercased(name@), playhead, w as int, h as int)[r],
{
    let lower = lowercase(name);
    clip_grid(t, look, clips, ticks_per_bar, lower.as_str(), playhead, w, h)
}

} // verus!
