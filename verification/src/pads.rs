//! The pad map's text: rows built column by column where a column that does
//! not fit is not drawn at all, names cut to the room they have, the caret
//! over the key being edited, how a key on the bed is painted, and the
//! marker ruler under a waveform.

use vstd::prelude::*;

use crate::keyboard::{self, KeyPaint};
use crate::style::{colors, Color, Style};
use crate::text::{
    char_count, char_string, push_span, repeat_char, repeated, span_views, text_of, width_of, Span,
};
use crate::theme::{self, active, ActiveTheme};

verus! {

/// A row built column by column, where a column that does not fit is not
/// drawn at all: half a word cut off by the right edge reads as a bug
/// rather than as a narrow terminal.
pub struct Row {
    spans: Vec<Span>,
    width: usize,
    used: usize,
}

impl Row {
    /// The spans drawn so far.
    pub closed spec fn cells(self) -> Seq<Span> {
        self.spans@
    }

    /// The width the row was given.
    pub closed spec fn room(self) -> nat {
        self.width as nat
    }

    /// What the row holds, as its cells and the room still free.
    pub closed spec fn model(self) -> (Seq<(Seq<char>, Style)>, int) {
        (span_views(self.spans@), self.width - self.used)
    }

    /// A row that is exactly as wide as its spans, and no wider than its room.
    pub closed spec fn wf(self) -> bool {
        &&& width_of(self.spans@) == self.used
        &&& self.used <= self.width
    }

    pub fn new(width: usize) -> (r: Row)
        ensures
            r.wf(),
            r.cells() == Seq::<Span>::empty(),
            r.room() == width,
            r.model() == (Seq::<(Seq<char>, Style)>::empty(), width as int),
    {
        let r = Row { spans: Vec::new(), width, used: 0 };
        assert(text_of(r.spans@) =~= Seq::<char>::empty());
        assert(span_views(r.spans@) =~= Seq::<(Seq<char>, Style)>::empty());
        r
    }

    /// How many cells are still free.
    pub fn left(&self) -> (n: usize)
        requires
            self.wf(),
        ensures
            n == self.room() - width_of(self.cells()),
            n == self.model().1,
    {
        self.width - self.used
    }

    /// Add a column, or nothing when it does not fit in what is left.
    pub fn push(&mut self, text: String, style: Style)
        requires
            old(self).wf(),
        ensures
            final(self).wf(),
            final(self).room() == old(self).room(),
            text@.len() <= old(self).room() - width_of(old(self).cells()) ==> extended(
                old(self).cells(),
                final(self).cells(),
                text@,
                style,
            ),
            text@.len() > old(self).room() - width_of(old(self).cells()) ==> final(self).cells()
                == old(self).cells(),
            final(self).model() == row_push(old(self).model(), text@, style),
    {
        let cells = char_count(text.as_str());
        if cells > self.width - self.used {
            return;
        }
        let ghost before = self.spans@;
        self.used = self.used + cells;
        push_span(&mut self.spans, Span::styled(text, style));
        assert(self.spans@.drop_last() =~= before);
        assert(span_views(self.spans@) =~= span_views(before).push((text@, style)));
    }

    /// The first of `options` that fits, widest first: for the marks that say
    /// something is wrong, which must not vanish the way a column does.
    pub fn push_widest(&mut self, options: &Vec<&str>, style: Style)
        requires
            old(self).wf(),
        ensures
            final(self).wf(),
            final(self).room() == old(self).room(),
            ({
                let left = old(self).room() - width_of(old(self).cells());
                match first_fitting(options@, left) {
                    Some(k) => 0 <= k < options@.len() && extended(
                        old(self).cells(),
                        final(self).cells(),
                        options@[k]@,
                        style,
                    ),
                    None => final(self).cells() == old(self).cells(),
                }
            }),
            final(self).model() == widest_push(old(self).model(), str_views(options@), style),
    {
        let left = self.width - self.used;
        let mut k: usize = 0;
        assert(str_views(options@).subrange(0, options@.len() as int) =~= str_views(options@));
        while k < options.len()
            invariant
                k <= options@.len(),
                self.room() == old(self).room(),
                self.cells() == old(self).cells(),
                left == self.room() - width_of(self.cells()),
                self.wf(),
                first_fitting(options@, left as int) == first_fitting_from(options@, left as int, k as int),
                self.model() == old(self).model(),
                left == old(self).model().1,
                widest_push(old(self).model(), str_views(options@), style) == widest_push(
                    old(self).model(),
                    str_views(options@).subrange(k as int, options@.len() as int),
                    style,
                ),
            decreases options@.len() - k,
        {
            let text: &str = options[k];
            proof {
                let all = str_views(options@);
                assert(all.subrange(k as int, options@.len() as int).drop_first() =~= all.subrange(
                    k as int + 1,
                    options@.len() as int,
                ));
                assert(all.subrange(k as int, options@.len() as int)[0] == text@);
            }
            if char_count(text) <= left {
                proof {
                    lemma_first_fitting_in_range(options@, left as int, k as int);
                }
                self.push(String::from_str(text), style);
                return;
            }
            k += 1;
        }
        proof {
            let all = str_views(options@);
            assert(all.subrange(k as int, options@.len() as int) =~= Seq::<Seq<char>>::empty());
        }
    }

    /// The row, finished.
    pub fn line(self) -> (spans: Vec<Span>)
        requires
            self.wf(),
        ensures
            spans@ == self.cells(),
            width_of(spans@) <= self.room(),
            span_views(spans@) == self.model().0,
    {
        self.spans
    }
}

/// The first option no wider than `left`, searching from `k`.
pub open spec fn first_fitting_from(options: Seq<&str>, left: int, k: int) -> Option<int>
    decreases options.len() - k,
{
    if k < 0 || k >= options.len() {
        None
    } else if options[k]@.len() <= left {
        Some(k)
    } else {
        first_fitting_from(options, left, k + 1)
    }
}

/// A row's cells and free room after a column is offered to it: taken
/// whole when it fits, not drawn at all when it does not.
pub open spec fn row_push(
    m: (Seq<(Seq<char>, Style)>, int),
    text: Seq<char>,
    style: Style,
) -> (Seq<(Seq<char>, Style)>, int) {
    if text.len() <= m.1 {
        (m.0.push((text, style)), m.1 - text.len())
    } else {
        m
    }
}

/// The characters of each of a list of strings.
pub open spec fn str_views(options: Seq<&str>) -> Seq<Seq<char>> {
    options.map_values(|o: &str| o@)
}

/// A row after the first of `options` that fits is offered to it, widest
/// first; nothing is drawn when none fits.
pub open spec fn widest_push(
    m: (Seq<(Seq<char>, Style)>, int),
    options: Seq<Seq<char>>,
    style: Style,
) -> (Seq<(Seq<char>, Style)>, int)
    decreases options.len(),
{
    if options.len() == 0 {
        m
    } else if options[0].len() <= m.1 {
        row_push(m, options[0], style)
    } else {
        widest_push(m, options.drop_first(), style)
    }
}

/// `after` is `before` with one more span, holding `text` in `style`.
pub open spec fn extended(before: Seq<Span>, after: Seq<Span>, text: Seq<char>, style: Style) -> bool {
    &&& after.len() == before.len() + 1
    &&& after.drop_last() == before
    &&& after.last().text@ == text
    &&& after.last().style == style
}

proof fn lemma_first_fitting_in_range(options: Seq<&str>, left: int, k: int)
    requires
        0 <= k < options.len(),
        options[k]@.len() <= left,
    ensures
        first_fitting_from(options, left, k) == Some(k),
{
}

/// The first option no wider than `left`.
pub open spec fn first_fitting(options: Seq<&str>, left: int) -> Option<int> {
    first_fitting_from(options, left, 0)
}

/// A name cut to `width` characters, with an ellipsis where it was cut: the
/// name itself when it fits, otherwise its first `width - 1` characters and
/// `…`, and nothing at all where there is no room.
pub open spec fn clip_text_spec(text: Seq<char>, width: int) -> Seq<char> {
    if text.len() <= width {
        text
    } else if width <= 0 {
        Seq::empty()
    } else {
        text.subrange(0, width - 1).push('\u{2026}')
    }
}

/// Cut a name to the room it has, with an ellipsis where it was cut. The
/// result never has more than `width` characters.
pub fn clip_text(text: &str, width: usize) -> (s: String)
    ensures
        s@ == clip_text_spec(text@, width as int),
        s@.len() <= width,
{
    let n = char_count(text);
    if n <= width {
        return String::from_str(text);
    }
    if width == 0 {
        return String::new();
    }
    let mut s = String::from_str(text.substring_char(0, width - 1));
    crate::text::push_char(&mut s, '\u{2026}');
    s
}

/// The mark a zone's root key wears on the band.
pub open spec fn root_mark() -> char {
    '\u{25C6}'
}

/// What a key with `count` sounds stacked on it carries on its face: the
/// count as a digit up to nine, a `+` past that, nothing for none.
pub open spec fn count_glyph_spec(count: int) -> Option<char> {
    if count == 0 {
        None
    } else if count <= 9 {
        Some(crate::text::digit_char(count as nat))
    } else {
        Some('+')
    }
}

pub fn count_glyph(count: usize) -> (g: Option<char>)
    ensures
        g == count_glyph_spec(count as int),
{
    if count == 0 {
        None
    } else if count <= 9 {
        Some(crate::text::digit_char_of(count as u64))
    } else {
        Some('+')
    }
}

/// What one key on the bed shows, from what it plays.
pub struct KeyLoad {
    /// The pad the key addresses, if it is on the bed at all.
    pub pad: Option<usize>,
    /// How many sounds it plays.
    pub count: usize,
    /// Whether any of them has lost its file.
    pub missing: bool,
    /// Whether it is a zone's root key.
    pub root: bool,
}

/// A key with nothing on it, in whichever resting colour its kind takes.
pub open spec fn rest_paint(t: &ActiveTheme, note: int) -> KeyPaint {
    KeyPaint {
        bg: if keyboard::black(note) { keyboard::black_rest_spec(t) } else { theme::lighten_spec(active(t).bg, 5) },
        glyph: None,
        glyph_fg: active(t).normal,
    }
}

/// How one key on the bed is painted: the cursor's key in bright amber, a
/// key with a missing sound in red, a key with sounds in the track's
/// colour, and anything else at rest; a lit root key wears the anchor, and
/// any other lit key its count, both in ink.
pub open spec fn key_paint_spec(t: &ActiveTheme, note: int, load: KeyLoad, cursor: int, colour: Color) -> KeyPaint {
    match load.pad {
        None => rest_paint(t, note),
        Some(index) => if index == cursor || load.missing || load.count > 0 {
            let glyph = if load.root { Some(root_mark()) } else { count_glyph_spec(load.count as int) };
            KeyPaint {
                bg: if index == cursor {
                    active(t).amber_bright
                } else if load.missing {
                    active(t).rec_active
                } else {
                    colour
                },
                glyph,
                glyph_fg: if glyph is Some { keyboard::ink_spec() } else { active(t).bg },
            }
        } else {
            rest_paint(t, note)
        },
    }
}

/// How one key on the bed is painted, from what it plays.
pub fn key_paint(t: &ActiveTheme, note: u8, load: &KeyLoad, cursor: usize, colour: Color) -> (k: KeyPaint)
    ensures
        k == key_paint_spec(t, note as int, *load, cursor as int, colour),
{
    let index = match load.pad {
        None => { return KeyPaint::plain(t, note); },
        Some(i) => i,
    };
    let paint = if index == cursor {
        KeyPaint::lit(t, theme::amber_bright_val(t))
    } else if load.missing {
        KeyPaint::lit(t, theme::rec_active_val(t))
    } else if load.count > 0 {
        KeyPaint::lit(t, colour)
    } else {
        return KeyPaint::plain(t, note);
    };
    if load.root {
        return paint.with_glyph('\u{25C6}', keyboard::ink());
    }
    match count_glyph(load.count) {
        Some(g) => paint.with_glyph(g, keyboard::ink()),
        None => paint,
    }
}

/// The caret over the key being edited: spaces to its column and a `▼`,
/// bright while the pane has the keys and dim otherwise; or one blank cell
/// when the key is past the right edge. Everything but the caret is in the
/// background.
pub open spec fn caret_spec(t: &ActiveTheme, focused: bool, lo: int, cursor_note: int, width: int) -> Seq<
    (Seq<char>, Style),
> {
    let column = keyboard::column_spec(lo, cursor_note);
    if column >= width {
        seq![(seq![' '], crate::style::on(active(t).bg))]
    } else {
        seq![
            (repeated(' ', column as nat), crate::style::on(active(t).bg)),
            (
                seq!['\u{25BC}'],
                if focused { colors(active(t).amber_bright, active(t).bg) } else { colors(active(t).dim, active(t).bg) },
            ),
        ]
    }
}

/// The caret over the key being edited.
pub fn caret_line(t: &ActiveTheme, focused: bool, lo: u8, cursor_note: u8, width: usize) -> (spans: Vec<Span>)
    ensures
        span_views(spans@) == caret_spec(t, focused, lo as int, cursor_note as int, width as int),
{
    let column = keyboard::column_of(lo, cursor_note);
    let mut spans: Vec<Span> = Vec::new();
    if column >= width {
        spans.push(Span::styled(char_string(' '), theme::bg(t)));
        assert(span_views(spans@) =~= caret_spec(t, focused, lo as int, cursor_note as int, width as int));
        return spans;
    }
    spans.push(Span::styled(repeat_char(' ', column), theme::bg(t)));
    spans.push(Span::styled(
        char_string('\u{25BC}'),
        if focused { theme::amber_bright(t) } else { theme::dim(t) },
    ));
    assert(span_views(spans@) =~= caret_spec(t, focused, lo as int, cursor_note as int, width as int));
    spans
}

} // verus!
