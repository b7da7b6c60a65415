//! The keyboard band: one drawn keyboard, for every room that shows one.
//!
//! Which keys are black, where a black key sits over the white one below
//! it, how many whites fit in a width, which column a key lands in, and
//! which stretch of keys a narrow band shows. What a key *means* stays with
//! the caller, who answers with a colour and, if it wants one, a glyph.

use vstd::prelude::*;

use crate::style::{on, Color, Style};
use crate::text::{cells_of, char_string, push_span, repeat_char, styled_chars, Span};
use crate::theme::{self, ActiveTheme};

verus! {

/// How wide a white key is drawn.
pub const KEY_W: usize = 2;

/// The margin to the left of the band, in cells.
pub const MARGIN: usize = 2;

/// How many rows a band occupies.
pub const ROWS: usize = 5;

/// The row a white key's glyph is written on.
pub const WHITE_GLYPH_ROW: usize = 4;

/// The row a black key's glyph is written on.
pub const BLACK_GLYPH_ROW: usize = 1;

/// A black key: C#, D#, F#, G#, A# of every octave.
pub open spec fn black(note: int) -> bool {
    let pc = note % 12;
    pc == 1 || pc == 3 || pc == 6 || pc == 8 || pc == 10
}

/// The white keys in `lo..note`.
pub open spec fn white_count(lo: int, note: int) -> nat
    decreases note - lo,
{
    if note <= lo {
        0
    } else {
        white_count(lo, note - 1) + if black(note - 1) { 0nat } else { 1nat }
    }
}

/// The white key `index` places up from `lo`, or 127 (or `lo`, from above
/// it) when the keyboard runs out first.
pub open spec fn white_at_spec(lo: int, index: int) -> int
    decreases 127 - lo,
{
    if lo >= 127 {
        lo
    } else if !black(lo) && index == 0 {
        lo
    } else if !black(lo) {
        white_at_spec(lo + 1, index - 1)
    } else {
        white_at_spec(lo + 1, index)
    }
}

/// How many white keys a band of `width` cells can show.
pub open spec fn whites_fitting_spec(width: int) -> int {
    if width <= (MARGIN * 2) as int { 0 } else { (width - (MARGIN * 2) as int) / (KEY_W as int) }
}

/// Where a key's cell starts, in cells from the band's left edge.
pub open spec fn column_spec(lo: int, note: int) -> int {
    if black(note) {
        MARGIN as int + white_count(lo, if note >= 1 { note - 1 } else { 0 }) * (KEY_W as int) + 1
    } else {
        MARGIN as int + white_count(lo, note) * (KEY_W as int)
    }
}

/// The lowest key of a window `width` cells wide that keeps `cursor` in
/// sight, scrolling in whole white keys with the cursor centred.
pub open spec fn window_lo_spec(lo: int, hi: int, width: int, cursor: int) -> int {
    let total: int = white_count(lo, hi) as int + 1;
    let fit: int = whites_fitting_spec(width);
    let shown: int = if fit < total { fit } else { total };
    if shown == 0 || shown >= total {
        lo
    } else {
        let anchor = if black(cursor) { if cursor >= 1 { cursor - 1 } else { 0 } } else { cursor };
        let wanted: int = white_count(lo, anchor) as int - shown / 2;
        let from: int = if wanted < 0 { 0 } else { wanted };
        let start = if from < total - shown { from } else { total - shown };
        white_at_spec(lo, start)
    }
}

pub fn is_black(note: u8) -> (b: bool)
    ensures
        b == black(note as int),
{
    let pc = note % 12;
    pc == 1 || pc == 3 || pc == 6 || pc == 8 || pc == 10
}

/// White-key index of a note counted from `lo`, white keys only.
pub fn white_index(lo: u8, note: u8) -> (n: usize)
    ensures
        n == white_count(lo as int, note as int),
        n <= 256,
{
    let mut count: usize = 0;
    let mut n: u8 = lo;
    if note <= lo {
        return 0;
    }
    while n < note
        invariant
            lo <= n <= note,
            count == white_count(lo as int, n as int),
            count <= n - lo,
        decreases note - n,
    {
        if !is_black(n) {
            count += 1;
        }
        n += 1;
    }
    count
}

/// The white key `index` places above `lo`, clamped to the top of the MIDI
/// range so a runaway count cannot spin.
pub fn white_at(lo: u8, index: usize) -> (note: u8)
    ensures
        note == white_at_spec(lo as int, index as int),
{
    let mut note = lo;
    let mut seen: usize = 0;
    while note < 127
        invariant
            lo <= note,
            seen <= index,
            white_at_spec(lo as int, index as int) == white_at_spec(note as int, (index - seen) as int),
        decreases 127 - note,
    {
        if !is_black(note) {
            if seen == index {
                return note;
            }
            seen += 1;
        }
        note += 1;
    }
    note
}

/// Whether a black key is drawn on the right half of `white`'s cell.
pub fn has_black_after(white: u8, hi: u8) -> (b: bool)
    ensures
        b == (white < 255 && white + 1 <= hi && black(white + 1)),
{
    if white == 255 {
        return false;
    }
    let next = white + 1;
    next <= hi && is_black(next)
}

/// How many white keys a band of `width` cells can show.
pub fn whites_fitting(width: usize) -> (n: usize)
    ensures
        n == whites_fitting_spec(width as int),
{
    if width <= MARGIN * 2 { 0 } else { (width - MARGIN * 2) / KEY_W }
}

/// Where a key's cell starts, in cells from the left edge of the band. A
/// black key is drawn on the right half of the cell belonging to the white
/// key below it.
pub fn column_of(lo: u8, note: u8) -> (col: usize)
    ensures
        col == column_spec(lo as int, note as int),
{
    if is_black(note) {
        let below = if note >= 1 { note - 1 } else { 0 };
        MARGIN + white_index(lo, below) * KEY_W + 1
    } else {
        MARGIN + white_index(lo, note) * KEY_W
    }
}

/// The lowest key of a window `width` cells wide that keeps `cursor` in
/// sight.
pub fn window_lo(lo: u8, hi: u8, width: usize, cursor: u8) -> (start: u8)
    ensures
        start == window_lo_spec(lo as int, hi as int, width as int, cursor as int),
{
    let total = white_index(lo, hi) + 1;
    let fit = whites_fitting(width);
    let shown = if fit < total { fit } else { total };
    if shown == 0 || shown >= total {
        return lo;
    }
    let anchor = if is_black(cursor) { if cursor >= 1 { cursor - 1 } else { 0 } } else { cursor };
    let wi = white_index(lo, anchor);
    let from = if wi >= shown / 2 { wi - shown / 2 } else { 0 };
    let start = if from < total - shown { from } else { total - shown };
    white_at(lo, start)
}


/// Counting whites from `lo` peels off the first key.
proof fn lemma_count_front(lo: int, note: int)
    requires
        lo < note,
    ensures
        white_count(lo, note) == white_count(lo + 1, note) + if black(lo) { 0nat } else { 1nat },
    decreases note - lo,
{
    assert(white_count(lo, note) == white_count(lo, note - 1) + if black(note - 1) { 0nat } else { 1nat });
    if note - 1 > lo {
        lemma_count_front(lo, note - 1);
        assert(white_count(lo + 1, note) == white_count(lo + 1, note - 1) + if black(note - 1) { 0nat } else { 1nat });
    } else {
        assert(white_count(lo, lo) == 0);
        assert(white_count(lo + 1, lo + 1) == 0);
    }
}

/// Whites counted over two adjoining stretches add up.
proof fn lemma_count_split(lo: int, mid: int, note: int)
    requires
        lo <= mid <= note,
    ensures
        white_count(lo, note) == white_count(lo, mid) + white_count(mid, note),
    decreases note - mid,
{
    if note > mid {
        lemma_count_split(lo, mid, note - 1);
    }
}

/// The white keys counted in `lo..=hi` are the ones `white_at_spec` names
/// between `lo` and `hi`.
pub(crate) proof fn lemma_white_at_within(lo: int, hi: int, i: int)
    requires
        0 <= lo <= hi < 127,
        0 <= i < white_count(lo, hi + 1),
    ensures
        lo <= white_at_spec(lo, i) <= hi,
    decreases hi - lo,
{
    lemma_count_front(lo, hi + 1);
    if lo == hi {
        assert(white_count(lo + 1, hi + 1) == 0);
    } else if !black(lo) && i == 0 {
    } else if !black(lo) {
        lemma_white_at_within(lo + 1, hi, i - 1);
    } else {
        lemma_white_at_within(lo + 1, hi, i);
    }
}

/// The key below a black key is white.
proof fn lemma_below_black_is_white(note: int)
    requires
        0 <= note,
        black(note),
    ensures
        note >= 1,
        !black(note - 1),
{
}

/// The white key at a white key's own index is that key.
pub(crate) proof fn lemma_white_at_own_index(lo: int, x: int)
    requires
        lo <= x < 127,
        !black(x),
    ensures
        white_at_spec(lo, white_count(lo, x) as int) == x,
    decreases x - lo,
{
    if lo < x {
        lemma_count_front(lo, x);
        lemma_white_at_own_index(lo + 1, x);
    }
}

/// Any index no higher than a white key's own names a white key at or
/// below it, whose own index it is.
proof fn lemma_white_at_below(lo: int, x: int, k: int)
    requires
        lo <= x <= 127,
        !black(x),
        0 <= k <= white_count(lo, x),
    ensures
        lo <= white_at_spec(lo, k) <= x,
        !black(white_at_spec(lo, k)),
        white_count(lo, white_at_spec(lo, k)) == k,
    decreases x - lo,
{
    if lo == x {
    } else {
        lemma_count_front(lo, x);
        if !black(lo) && k == 0 {
        } else if !black(lo) {
            lemma_white_at_below(lo + 1, x, k - 1);
            let y = white_at_spec(lo + 1, k - 1);
            lemma_count_front(lo, y);
        } else {
            lemma_white_at_below(lo + 1, x, k);
            let y = white_at_spec(lo + 1, k);
            lemma_count_front(lo, y);
        }
    }
}

/// **A narrow band keeps the cursor in sight.** For a cursor on the bed,
/// the window starts on a white key at or left of the cursor's key and not
/// below `lo`, the cursor's key is one of the white keys the band has room
/// for, and the window never runs past `hi`: the white keys it has room
/// for end at `hi`'s place or before it.
pub proof fn lemma_window_keeps_cursor(lo: int, hi: int, width: int, cursor: int)
    requires
        0 <= lo <= cursor <= hi <= 127,
        !black(lo),
        whites_fitting_spec(width) >= 1,
    ensures
        ({
            let start = window_lo_spec(lo, hi, width, cursor);
            let anchor = if black(cursor) { cursor - 1 } else { cursor };
            let total: int = white_count(lo, hi) as int + 1;
            let shown = if whites_fitting_spec(width) < total { whites_fitting_spec(width) } else { total };
            &&& !black(start)
            &&& lo <= start <= anchor
            &&& white_count(start, anchor) < shown
            &&& shown <= white_count(start, hi) + 1
        }),
{
    let anchor = if black(cursor) { cursor - 1 } else { cursor };
    if black(cursor) {
        lemma_below_black_is_white(cursor);
        assert(cursor != lo);
    }
    let total: int = white_count(lo, hi) as int + 1;
    let fit = whites_fitting_spec(width);
    let shown: int = if fit < total { fit } else { total };
    lemma_count_split(lo, anchor, hi);
    let start = window_lo_spec(lo, hi, width, cursor);
    if shown >= total {
        assert(start == lo);
        assert(white_count(lo, anchor) <= white_count(lo, hi));
    } else {
        let wanted: int = white_count(lo, anchor) as int - shown / 2;
        let from: int = if wanted < 0 { 0 } else { wanted };
        let k = if from < total - shown { from } else { total - shown };
        assert(start == white_at_spec(lo, k));
        lemma_white_at_below(lo, anchor, k);
        lemma_count_split(lo, start, anchor);
        lemma_count_split(lo, start, hi);
    }
}

/// How a key is painted this frame.
#[derive(Clone, Copy, Debug, PartialEq, Eq, Structural)]
pub struct KeyPaint {
    pub bg: Color,
    /// A character for the key's face: a finger number, a layer count.
    pub glyph: Option<char>,
    pub glyph_fg: Color,
}

/// The colour an untouched black key rests at.
pub open spec fn black_rest_spec(t: &ActiveTheme) -> Color {
    theme::dim_color_spec(theme::active(t).bg, 40)
}

impl KeyPaint {
    /// A key with nothing on it, in whichever resting colour its kind takes.
    pub fn plain(t: &ActiveTheme, note: u8) -> (k: KeyPaint)
        ensures
            k.bg == (if black(note as int) {
                black_rest_spec(t)
            } else {
                theme::lighten_spec(theme::active(t).bg, 5)
            }),
            k.glyph.is_none(),
            k.glyph_fg == theme::active(t).normal,
    {
        KeyPaint {
            bg: if is_black(note) { black_rest(t) } else { theme::piano_white_bg(t) },
            glyph: None,
            glyph_fg: theme::normal_val(t),
        }
    }

    /// A lit key: its colour, no glyph, and the background as ink.
    pub fn lit(t: &ActiveTheme, bg: Color) -> (k: KeyPaint)
        ensures
            k.bg == bg,
            k.glyph.is_none(),
            k.glyph_fg == theme::active(t).bg,
    {
        KeyPaint { bg, glyph: None, glyph_fg: theme::bg_val(t) }
    }

    /// The same key with a glyph on its face.
    pub fn with_glyph(self, glyph: char, fg: Color) -> (k: KeyPaint)
        ensures
            k.bg == self.bg,
            k.glyph == Some(glyph),
            k.glyph_fg == fg,
    {
        KeyPaint { bg: self.bg, glyph: Some(glyph), glyph_fg: fg }
    }
}

/// The colour an untouched black key rests at: dark enough to read as the
/// gap between two white keys in every palette.
pub fn black_rest(t: &ActiveTheme) -> (c: Color)
    ensures
        c == black_rest_spec(t),
{
    theme::dim_color(theme::bg_val(t), 40)
}

/// The ink a glyph on a lit key is written in: near-black reads on every
/// bright colour a palette lights a key with.
pub open spec fn ink_spec() -> Color {
    Color::Rgb(12, 12, 12)
}

pub fn ink() -> (c: Color)
    ensures
        c == ink_spec(),
{
    Color::Rgb(12, 12, 12)
}

/// How many white keys a band from `lo` to `hi` in `width` cells draws.
pub open spec fn drawn_spec(lo: int, hi: int, width: int) -> int {
    let total: int = white_count(lo, hi) as int + 1;
    let fit = whites_fitting_spec(width);
    let shown = if fit < total { fit } else { total };
    let there = white_count(lo, hi + 1) as int;
    if shown < there { shown } else { there }
}

/// The margin a band of `width` cells keeps on its left.
pub open spec fn margin_spec(width: int) -> int {
    if width < MARGIN as int { width } else { MARGIN as int }
}

/// The two cells one white key's cell shows on `row`: where a black key
/// stands above it (`above`), the white key's left half and the black key
/// with its glyph on the glyph row; otherwise both halves of the white key,
/// with its glyph on the white glyph row.
pub open spec fn key_cells(face: KeyPaint, above: Option<KeyPaint>, row: int) -> Seq<(char, Style)> {
    let white = Style { bg: Some(face.bg), ..Style::plain() };
    match above {
        Some(b) => seq![
            (' ', white),
            (
                if row == BLACK_GLYPH_ROW && b.glyph is Some { b.glyph->0 } else { ' ' },
                Style { fg: Some(b.glyph_fg), bg: Some(b.bg), bold: true, ..Style::plain() },
            ),
        ],
        None => if row == WHITE_GLYPH_ROW && face.glyph is Some {
            let ink = Style { fg: Some(face.glyph_fg), bg: Some(face.bg), bold: true, ..Style::plain() };
            seq![(face.glyph->0, ink), (' ', ink)]
        } else {
            seq![(' ', white), (' ', white)]
        },
    }
}

/// **A key is where the column says it is.** In a band with room for its
/// margin, every white key it drew starts at the cell [`column_spec`] names
/// for it, and the black key above it, where there is one, is drawn at the
/// cell named for the black key — so the caret over the keyboard and the
/// rule under it line up with the keys on every row.
pub proof fn lemma_key_is_where_the_column_says<F: Fn(u8) -> KeyPaint>(
    t: &ActiveTheme,
    paint: F,
    lo: int,
    hi: int,
    width: int,
    rows: Seq<Vec<Span>>,
    keys: Seq<(u8, KeyPaint, Option<KeyPaint>)>,
    i: int,
    r: int,
)
    requires
        band_drawn(t, paint, lo, hi, width, rows, keys),
        width >= MARGIN,
        0 <= i < keys.len(),
        0 <= r < ROWS,
    ensures
        cells_of(rows[r]@)[column_spec(lo, keys[i].0 as int)] == key_cells(
            keys[i].1,
            if r <= BLACK_GLYPH_ROW + 1 { keys[i].2 } else { None },
            r,
        )[0],
        keys[i].2 is Some ==> column_spec(lo, keys[i].0 + 1) == column_spec(lo, keys[i].0 as int) + 1
            && black(keys[i].0 + 1),
        keys[i].2 is Some && r <= BLACK_GLYPH_ROW + 1 ==> cells_of(rows[r]@)[column_spec(lo, keys[i].0 + 1)]
            == key_cells(keys[i].1, keys[i].2, r)[1],
{
    let k = keys[i];
    assert(drawn_ok(paint, keys[i], lo, hi, i));
    assert(row_ok(t, cells_of(rows[r]@), margin_spec(width), keys, r));
    let m = margin_spec(width);
    assert(m == MARGIN);
    let c = m + 2 * i;
    assert(column_spec(lo, k.0 as int) == c);
    assert((c - m) / 2 == i && (c - m) % 2 == 0) by (nonlinear_arith)
        requires
            c == m + 2 * i,
            i >= 0,
    {
    }
    assert(cells_of(rows[r]@)[c] == key_cells(k.1, if r <= BLACK_GLYPH_ROW + 1 { k.2 } else { None }, r)[0]);
    if k.2 is Some {
        assert(black(k.0 + 1));
        assert(column_spec(lo, k.0 + 1) == c + 1);
        assert((c + 1 - m) / 2 == i && (c + 1 - m) % 2 == 1) by (nonlinear_arith)
            requires
                c == m + 2 * i,
                i >= 0,
        {
        }
    }
}

/// One row of one white key's cell, two cells wide, onto the end of `row`.
fn push_key_cell(cells: &mut Vec<Span>, row: usize, face: KeyPaint, above: Option<KeyPaint>)
    ensures
        crate::text::width_of(final(cells)@) == crate::text::width_of(old(cells)@) + KEY_W,
        cells_of(final(cells)@) == cells_of(old(cells)@) + key_cells(face, above, row as int),
{
    let ghost start = cells@;
    let white_style = Style::new().bg(face.bg);
    match above {
        Some(black) => {
            let left = char_string(' ');
            assert(styled_chars(left@, white_style) =~= seq![(' ', white_style)]);
            push_span(cells, Span::styled(left, white_style));
            let ghost mid = cells@;
            proof {
                assert(mid.drop_last() =~= start);
                assert(cells_of(mid) =~= cells_of(start) + seq![(' ', white_style)]);
            }
            let glyph = if row == BLACK_GLYPH_ROW { black.glyph } else { None };
            let c = match glyph {
                Some(g) => g,
                None => ' ',
            };
            let text = char_string(c);
            let black_style = Style::new().bg(black.bg).fg(black.glyph_fg).bold();
            assert(styled_chars(text@, black_style) =~= seq![(c, black_style)]);
            push_span(cells, Span::styled(text, black_style));
            proof {
                assert(cells@.drop_last() =~= mid);
                assert(cells_of(cells@) =~= cells_of(mid) + seq![(c, black_style)]);
                assert(cells_of(cells@) =~= cells_of(start) + key_cells(face, above, row as int));
            }
        },
        None => {
            if row == WHITE_GLYPH_ROW && face.glyph.is_some() {
                let g = face.glyph.unwrap();
                let mut text = char_string(g);
                crate::text::push_char(&mut text, ' ');
                let ink = white_style.fg(face.glyph_fg).bold();
                assert(styled_chars(text@, ink) =~= seq![(g, ink), (' ', ink)]);
                push_span(cells, Span::styled(text, ink));
                proof {
                    assert(cells@.drop_last() =~= start);
                    assert(cells_of(cells@) =~= cells_of(start) + seq![(g, ink), (' ', ink)]);
                }
            } else {
                let text = repeat_char(' ', 2);
                assert(styled_chars(text@, white_style) =~= seq![(' ', white_style), (' ', white_style)]);
                push_span(cells, Span::styled(text, white_style));
                proof {
                    assert(cells@.drop_last() =~= start);
                    assert(cells_of(cells@) =~= cells_of(start) + seq![(' ', white_style), (' ', white_style)]);
                }
            }
            assert(cells_of(cells@) =~= cells_of(start) + key_cells(face, above, row as int));
        },
    }
}

/// A key the band drew: the white key's note, how it was painted, and how
/// the black key above it was, where there is one.
pub open spec fn drawn_ok<F: Fn(u8) -> KeyPaint>(paint: F, k: (u8, KeyPaint, Option<KeyPaint>), lo: int, hi: int, i: int) -> bool {
    &&& lo <= k.0 <= hi
    &&& !black(k.0 as int)
    &&& white_count(lo, k.0 as int) == i
    &&& call_ensures(paint, (k.0,), k.1)
    &&& if k.0 < 255 && k.0 + 1 <= hi && black(k.0 + 1) {
        &&& k.2 is Some
        &&& call_ensures(paint, ((k.0 + 1) as u8,), k.2->0)
    } else {
        k.2 is None
    }
}

/// A row of the band: the margin in the background, then each key's two
/// cells — the black keys reach down three rows.
pub open spec fn row_ok(t: &ActiveTheme, cells: Seq<(char, Style)>, m: int, keys: Seq<(u8, KeyPaint, Option<KeyPaint>)>, r: int) -> bool {
    &&& cells.len() == m + 2 * keys.len()
    &&& forall|c: int| 0 <= c < m ==> #[trigger] cells[c] == (' ', on(theme::active(t).bg))
    &&& forall|c: int|
        m <= c < m + 2 * keys.len() ==> #[trigger] cells[c] == key_cells(
            keys[(c - m) / 2].1,
            if r <= BLACK_GLYPH_ROW + 1 { keys[(c - m) / 2].2 } else { None },
            r,
        )[(c - m) % 2]
}

/// A row that had its keys, with one more key's cells on its end, has
/// them and that key.
proof fn lemma_row_extend(
    t: &ActiveTheme,
    before: Seq<(char, Style)>,
    m: int,
    keys: Seq<(u8, KeyPaint, Option<KeyPaint>)>,
    key: (u8, KeyPaint, Option<KeyPaint>),
    r: int,
)
    requires
        m >= 0,
        row_ok(t, before, m, keys, r),
    ensures
        row_ok(
            t,
            before + key_cells(key.1, if r <= BLACK_GLYPH_ROW + 1 { key.2 } else { None }, r),
            m,
            keys.push(key),
            r,
        ),
{
    let added = key_cells(key.1, if r <= BLACK_GLYPH_ROW + 1 { key.2 } else { None }, r);
    let after = before + added;
    let grown = keys.push(key);
    let n = keys.len() as int;
    assert(added.len() == 2);
    assert forall|c: int| m <= c < m + 2 * grown.len() implies #[trigger] after[c] == key_cells(
        grown[(c - m) / 2].1,
        if r <= BLACK_GLYPH_ROW + 1 { grown[(c - m) / 2].2 } else { None },
        r,
    )[(c - m) % 2] by {
        if c < m + 2 * n {
            assert(after[c] == before[c]);
            assert((c - m) / 2 < n) by (nonlinear_arith)
                requires
                    m <= c < m + 2 * n,
            {
            }
            assert(grown[(c - m) / 2] == keys[(c - m) / 2]);
        } else {
            assert((c - m) / 2 == n && (c - m) % 2 == c - m - 2 * n) by (nonlinear_arith)
                requires
                    m + 2 * n <= c < m + 2 * n + 2,
            {
            }
            assert(after[c] == added[c - m - 2 * n]);
        }
    }
    assert forall|c: int| 0 <= c < m implies #[trigger] after[c] == (' ', on(theme::active(t).bg)) by {
        assert(after[c] == before[c]);
    }
}

/// The band's rows, key by key.
pub open spec fn band_drawn<F: Fn(u8) -> KeyPaint>(
    t: &ActiveTheme,
    paint: F,
    lo: int,
    hi: int,
    width: int,
    rows: Seq<Vec<Span>>,
    keys: Seq<(u8, KeyPaint, Option<KeyPaint>)>,
) -> bool {
    &&& keys.len() == drawn_spec(lo, hi, width)
    &&& forall|i: int| 0 <= i < keys.len() ==> drawn_ok(paint, #[trigger] keys[i], lo, hi, i)
    &&& forall|r: int| 0 <= r < ROWS ==> row_ok(t, cells_of(#[trigger] rows[r]@), margin_spec(width), keys, r)
}

/// Draw the keys from `lo` to `hi` into [`ROWS`] rows, asking `paint` what
/// each one looks like.
///
/// Every row is exactly as wide as the margin and the white keys drawn, and
/// never wider than the `width` it was given.
pub fn band<F: Fn(u8) -> KeyPaint>(t: &ActiveTheme, lo: u8, hi: u8, width: usize, paint: F) -> (rows: Vec<Vec<Span>>)
    requires
        hi < 255,
        forall|n: u8| paint.requires((n,)),
    ensures
        rows.len() == ROWS,
        exists|keys: Seq<(u8, KeyPaint, Option<KeyPaint>)>| #[trigger] band_drawn(t, paint, lo as int, hi as int, width as int, rows@, keys),
        forall|r: int| 0 <= r < ROWS ==> crate::text::width_of(#[trigger] rows@[r]@)
            == margin_spec(width as int) + drawn_spec(lo as int, hi as int, width as int) * (KEY_W as int),
        forall|r: int| 0 <= r < ROWS ==> crate::text::width_of(#[trigger] rows@[r]@) <= width,
{
    let white_total = white_index(lo, hi) + 1;
    let fit = whites_fitting(width);
    let white_shown = if fit < white_total { fit } else { white_total };
    let m = if width < MARGIN { width } else { MARGIN };

    let margin_style = theme::bg(t);
    let mut r0: Vec<Span> = Vec::new();
    let mut r1: Vec<Span> = Vec::new();
    let mut r2: Vec<Span> = Vec::new();
    let mut r3: Vec<Span> = Vec::new();
    let mut r4: Vec<Span> = Vec::new();
    proof {
        assert(crate::text::text_of(Seq::<Span>::empty()) =~= Seq::<char>::empty());
    }
    push_span(&mut r0, Span::styled(repeat_char(' ', m), margin_style));
    push_span(&mut r1, Span::styled(repeat_char(' ', m), margin_style));
    push_span(&mut r2, Span::styled(repeat_char(' ', m), margin_style));
    push_span(&mut r3, Span::styled(repeat_char(' ', m), margin_style));
    push_span(&mut r4, Span::styled(repeat_char(' ', m), margin_style));
    let ghost mut keys: Seq<(u8, KeyPaint, Option<KeyPaint>)> = Seq::empty();
    proof {
        let margin = crate::text::styled_chars(crate::text::repeated(' ', m as nat), margin_style);
        assert(cells_of(Seq::<Span>::empty()) =~= Seq::<(char, Style)>::empty());
        assert(r0@.drop_last() =~= Seq::<Span>::empty());
        assert(cells_of(r0@) =~= margin);
        assert(r1@.drop_last() =~= Seq::<Span>::empty());
        assert(cells_of(r1@) =~= margin);
        assert(r2@.drop_last() =~= Seq::<Span>::empty());
        assert(cells_of(r2@) =~= margin);
        assert(r3@.drop_last() =~= Seq::<Span>::empty());
        assert(cells_of(r3@) =~= margin);
        assert(r4@.drop_last() =~= Seq::<Span>::empty());
        assert(cells_of(r4@) =~= margin);
    }

    let mut white: u8 = lo;
    let mut shown: usize = 0;
    while shown < white_shown && white <= hi
        invariant
            lo <= white,
            white as int <= hi as int + 1 || white == lo,
            shown <= white_shown,
            shown == white_count(lo as int, white as int),
            hi < 255,
            white_shown == (if whites_fitting_spec(width as int) < white_count(lo as int, hi as int) + 1 {
                whites_fitting_spec(width as int)
            } else {
                white_count(lo as int, hi as int) as int + 1
            }),
            forall|n: u8| paint.requires((n,)),
            crate::text::width_of(r0@) == m + shown * KEY_W,
            crate::text::width_of(r1@) == m + shown * KEY_W,
            crate::text::width_of(r2@) == m + shown * KEY_W,
            crate::text::width_of(r3@) == m + shown * KEY_W,
            crate::text::width_of(r4@) == m + shown * KEY_W,
            m == margin_spec(width as int),
            margin_style == on(theme::active(t).bg),
            keys.len() == shown,
            forall|i: int| 0 <= i < keys.len() ==> drawn_ok(paint, #[trigger] keys[i], lo as int, hi as int, i),
            row_ok(t, cells_of(r0@), m as int, keys, 0),
            row_ok(t, cells_of(r1@), m as int, keys, 1),
            row_ok(t, cells_of(r2@), m as int, keys, 2),
            row_ok(t, cells_of(r3@), m as int, keys, 3),
            row_ok(t, cells_of(r4@), m as int, keys, 4),
        decreases 256 - white,
    {
        if is_black(white) {
            white += 1;
            continue;
        }
        let face = paint(white);
        let above = if has_black_after(white, hi) { Some(paint(white + 1)) } else { None };
        let ghost key = (white, face, above);
        proof {
            lemma_row_extend(t, cells_of(r0@), m as int, keys, key, 0);
            lemma_row_extend(t, cells_of(r1@), m as int, keys, key, 1);
            lemma_row_extend(t, cells_of(r2@), m as int, keys, key, 2);
            lemma_row_extend(t, cells_of(r3@), m as int, keys, key, 3);
            lemma_row_extend(t, cells_of(r4@), m as int, keys, key, 4);
        }
        push_key_cell(&mut r0, 0, face, above);
        push_key_cell(&mut r1, 1, face, above);
        push_key_cell(&mut r2, 2, face, above);
        push_key_cell(&mut r3, 3, face, None);
        push_key_cell(&mut r4, 4, face, None);
        proof {
            keys = keys.push(key);
        }
        white += 1;
        shown += 1;
    }
    proof {
        if white as int <= hi as int + 1 {
            lemma_count_split(lo as int, white as int, hi as int + 1);
        }
        if hi as int + 1 <= lo as int {
            assert(white_count(lo as int, hi as int + 1) == 0);
        }
    }
    let mut rows: Vec<Vec<Span>> = Vec::new();
    rows.push(r0);
    rows.push(r1);
    rows.push(r2);
    rows.push(r3);
    rows.push(r4);
    assert(band_drawn(t, paint, lo as int, hi as int, width as int, rows@, keys));
    rows
}

} // verus!
