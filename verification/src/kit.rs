//! The pad map's pane: how its rows are shared out between the keyboard
//! band, the source banner and the body under them, when the body becomes
//! two columns, and the filled-pad list with its head and its rows.

use vstd::prelude::*;

use crate::keyboard::{self, KeyPaint};
use crate::pads::{caret_line, caret_spec, clip_text, clip_text_spec, key_paint, key_paint_spec, row_push, KeyLoad, Row};
use crate::style::{bolded, colors, Color, Style};
use crate::zones::{rule_cell, rule_line, ZoneSpan, BED_HIGH, BED_LOW};
use crate::text::{
    concatenated, decimal, decimal_spec, left_aligned, left_aligned_spec, right_aligned,
    right_aligned_spec, span_views, width_of, cells_of, Span,
};
use crate::theme::{self, active, ActiveTheme};

verus! {

/// Below this many rows the band is dropped for the panel's sake.
pub const BAND_MIN_H: usize = 12;

/// Below this many columns a keyboard is too few keys to read as one.
pub const BAND_MIN_W: usize = 24;

/// The width the filled-pad list takes when there is room for two columns.
pub const LIST_W: usize = 38;

/// Below this width the two columns become one.
pub const WIDE_MIN: usize = 78;

/// Whether a pane this size draws the keyboard band at all.
pub open spec fn shows_band_spec(width: int, height: int) -> bool {
    height >= BAND_MIN_H && width >= BAND_MIN_W
}

pub fn shows_band(width: usize, height: usize) -> (b: bool)
    ensures
        b == shows_band_spec(width as int, height as int),
{
    height >= BAND_MIN_H && width >= BAND_MIN_W
}

/// How the pane's rows are shared out from the top: the band, the banner
/// row, and the body that is left under them.
#[derive(Clone, Copy, Debug, PartialEq, Eq, Structural)]
pub struct PadsFrame {
    pub band_rows: usize,
    pub banner: bool,
    pub body_h: usize,
}

pub open spec fn pads_frame_spec(width: int, height: int, band_len: int, banner: bool) -> PadsFrame {
    if width == 0 || height == 0 {
        PadsFrame { band_rows: 0, banner: false, body_h: 0 }
    } else {
        let band = if shows_band_spec(width, height) {
            if band_len < height { band_len } else { height }
        } else {
            0
        };
        let rest = height - band;
        if rest == 0 {
            PadsFrame { band_rows: band as usize, banner: false, body_h: 0 }
        } else if banner {
            PadsFrame { band_rows: band as usize, banner: true, body_h: (rest - 1) as usize }
        } else {
            PadsFrame { band_rows: band as usize, banner: false, body_h: rest as usize }
        }
    }
}

/// The rows of a `width` by `height` pane: the band takes as many rows as
/// it drew (`band_len`), where it is shown at all; the banner, when there
/// is one, takes the row under it; the body is what is left. Every row of
/// the pane goes to exactly one of them.
pub fn pads_frame(width: usize, height: usize, band_len: usize, banner: bool) -> (f: PadsFrame)
    ensures
        f == pads_frame_spec(width as int, height as int, band_len as int, banner),
        width > 0 ==> f.band_rows + (if f.banner { 1int } else { 0int }) + f.body_h == height,
        f.banner ==> banner,
{
    if width == 0 || height == 0 {
        return PadsFrame { band_rows: 0, banner: false, body_h: 0 };
    }
    let band = if shows_band(width, height) {
        if band_len < height { band_len } else { height }
    } else {
        0
    };
    let rest = height - band;
    if rest == 0 {
        PadsFrame { band_rows: band, banner: false, body_h: 0 }
    } else if banner {
        PadsFrame { band_rows: band, banner: true, body_h: rest - 1 }
    } else {
        PadsFrame { band_rows: band, banner: false, body_h: rest }
    }
}

/// What the body under the band shows when there is no trim strip: the
/// list and the panel side by side, or the panel over the list.
#[derive(Clone, Copy, Debug, PartialEq, Eq, Structural)]
pub enum PadsBody {
    TwoColumns { list_w: usize, panel_w: usize },
    OneColumn { panel_h: usize },
}

pub open spec fn pads_body_spec(width: int, body_h: int) -> PadsBody {
    if width >= WIDE_MIN {
        PadsBody::TwoColumns { list_w: LIST_W, panel_w: (width - LIST_W) as usize }
    } else {
        PadsBody::OneColumn { panel_h: if body_h - 2 >= 1 { (body_h - 2) as usize } else { 1 } }
    }
}

/// Two columns from `WIDE_MIN` up, the list at its own width and the panel
/// taking the rest; one column below it, where the panel is asked for all
/// but two rows, kept back for the list's head and the pad under the caret.
pub fn pads_body(width: usize, body_h: usize) -> (b: PadsBody)
    ensures
        b == pads_body_spec(width as int, body_h as int),
        b matches PadsBody::TwoColumns { list_w, panel_w } ==> list_w + panel_w == width
            && panel_w >= WIDE_MIN - LIST_W,
{
    if width >= WIDE_MIN {
        PadsBody::TwoColumns { list_w: LIST_W, panel_w: width - LIST_W }
    } else {
        PadsBody::OneColumn { panel_h: if body_h >= 3 { body_h - 2 } else { 1 } }
    }
}

/// The one-column body: how many of the panel's lines are kept, and how
/// many rows the list under it is given (none when one row or less is left,
/// which is no room for a list).
pub open spec fn one_column_spec(body_h: int, panel_len: int) -> (int, int) {
    let keep = if panel_len < body_h { panel_len } else { body_h };
    let left = body_h - keep;
    (keep, if left > 1 { left } else { 0 })
}

/// The rows of a one-column body of `body_h` rows whose panel came back
/// with `panel_len` lines. The two share the body without overrunning it,
/// and a panel that kept to the height it was asked for leaves the list
/// the two rows it was promised.
pub fn one_column(body_h: usize, panel_len: usize) -> (r: (usize, usize))
    ensures
        (r.0 as int, r.1 as int) == one_column_spec(body_h as int, panel_len as int),
        r.0 + r.1 <= body_h,
        body_h >= 3 && panel_len <= body_h - 2 ==> r.1 >= 2,
{
    let keep = if panel_len < body_h { panel_len } else { body_h };
    let left = body_h - keep;
    (keep, if left > 1 { left } else { 0 })
}

/// The first pad row shown when `filled` pads share `rows` rows and the
/// pad under the caret is the `here`th of them.
pub open spec fn list_start_spec(here: int, filled: int, rows: int) -> int {
    let a = if here + 1 - rows > 0 { here + 1 - rows } else { 0 };
    let b = if filled - rows > 0 { filled - rows } else { 0 };
    if a < b { a } else { b }
}

/// Where the pad list's window starts: as early as it can while still
/// showing the pad under the caret, and never so late that the window has
/// rows to spare at the bottom.
pub fn list_start(here: usize, filled: usize, rows: usize) -> (s: usize)
    requires
        here < filled,
    ensures
        s == list_start_spec(here as int, filled as int, rows as int),
{
    let a = (here + 1).saturating_sub(rows);
    let b = filled.saturating_sub(rows);
    if a < b { a } else { b }
}

/// The pad under the caret is always on the list: its window starts at or
/// before it and reaches past it, and a kit longer than the window fills
/// the window to the bottom.
pub proof fn lemma_list_shows_the_caret(here: int, filled: int, rows: int)
    requires
        0 <= here < filled,
        rows >= 1,
    ensures
        0 <= list_start_spec(here, filled, rows) <= here,
        here < list_start_spec(here, filled, rows) + rows,
        filled >= rows ==> list_start_spec(here, filled, rows) + rows <= filled,
{
}

/// The mark a pad that remembers an instrument wears on the list.
pub open spec fn source_mark() -> char {
    '\u{25CE}'
}

/// A row's cells and room before anything is drawn on it.
pub open spec fn empty_row(width: int) -> (Seq<(Seq<char>, Style)>, int) {
    (Seq::empty(), width)
}

/// The style of a section's heading: bright and bold while the pane has the
/// keys, dim otherwise.
pub open spec fn heading_spec(t: &ActiveTheme, focused: bool) -> Style {
    if focused {
        bolded(colors(active(t).amber_bright, active(t).bg))
    } else {
        colors(active(t).dim, active(t).bg)
    }
}

pub fn heading(t: &ActiveTheme, focused: bool) -> (s: Style)
    ensures
        s == heading_spec(t, focused),
{
    if focused {
        theme::amber_bright(t).bold()
    } else {
        theme::dim(t)
    }
}

/// The list's head: its name, how many pads are filled, what the kit is
/// holding when there is anything to say, and what the source mark means
/// when some row wears it — each a column dropped whole on a narrow pane,
/// the legend first.
pub open spec fn list_head_spec(
    t: &ActiveTheme,
    focused: bool,
    filled: nat,
    held: Option<String>,
    any_source: bool,
    width: int,
) -> Seq<(Seq<char>, Style)> {
    let dim = colors(active(t).dim, active(t).bg);
    let m1 = row_push(empty_row(width), seq![' ', ' ', 'p', 'a', 'd', 's'], heading_spec(t, focused));
    let count = if filled == 0 {
        seq![' ', '\u{00b7}', ' ', 'e', 'm', 'p', 't', 'y']
    } else {
        seq![' ', '\u{00b7}', ' '] + decimal_spec(filled) + seq![' ', 'f', 'i', 'l', 'l', 'e', 'd']
    };
    let m2 = row_push(m1, count, dim);
    let m3 = match held {
        Some(h) => row_push(m2, h@, colors(active(t).muted, active(t).bg)),
        None => m2,
    };
    let m4 = if any_source {
        row_push(m3, seq![' ', '\u{00b7}', ' ', source_mark(), ' ', 's', 'o', 'u', 'r', 'c', 'e'], dim)
    } else {
        m3
    };
    m4.0
}

pub fn list_head(
    t: &ActiveTheme,
    focused: bool,
    filled: u64,
    held: &Option<String>,
    any_source: bool,
    width: usize,
) -> (spans: Vec<Span>)
    ensures
        span_views(spans@) == list_head_spec(t, focused, filled as nat, *held, any_source, width as int),
{
    proof {
        reveal_strlit("  pads");
        reveal_strlit(" \u{00b7} empty");
        reveal_strlit(" \u{00b7} ");
        reveal_strlit(" filled");
        reveal_strlit(" \u{00b7} \u{25CE} source");
    }
    let mut head = Row::new(width);
    assert("  pads"@ =~= seq![' ', ' ', 'p', 'a', 'd', 's']);
    assert(" \u{00b7} \u{25CE} source"@ =~= seq![' ', '\u{00b7}', ' ', source_mark(), ' ', 's', 'o', 'u', 'r', 'c', 'e']);
    head.push(String::from_str("  pads"), heading(t, focused));
    let count = if filled == 0 {
        String::from_str(" \u{00b7} empty")
    } else {
        let n = decimal(filled);
        let lead = concatenated(" \u{00b7} ", n.as_str());
        concatenated(lead.as_str(), " filled")
    };
    assert(count@ =~= (if filled == 0 {
        seq![' ', '\u{00b7}', ' ', 'e', 'm', 'p', 't', 'y']
    } else {
        seq![' ', '\u{00b7}', ' '] + decimal_spec(filled as nat) + seq![' ', 'f', 'i', 'l', 'l', 'e', 'd']
    }));
    head.push(count, theme::dim(t));
    match held {
        Some(h) => head.push(h.clone(), theme::muted(t)),
        None => {},
    }
    if any_source {
        head.push(String::from_str(" \u{00b7} \u{25CE} source"), theme::dim(t));
    }
    head.line()
}

/// One filled pad as the list reads it.
pub struct PadLine {
    /// The pad's name on the keyboard, such as `C3`.
    pub label: String,
    /// What is on it: the one sound's name, or how many are stacked.
    pub what: String,
    /// How many sounds it holds, layers and phrases together.
    pub count: u64,
    /// How it triggers, as its knob reads.
    pub trig: String,
    pub poly: u64,
    /// Its choke group; nothing is said of group 0, which chokes nothing.
    pub choke: u64,
    /// A sound on it has lost its file.
    pub missing: bool,
    /// It remembers the instrument it was recorded from.
    pub source: bool,
}

/// The label's style: the pad under the caret is amber, and bright and bold
/// while the pane has the keys.
pub open spec fn label_style_spec(t: &ActiveTheme, here: bool, focused: bool) -> Style {
    if here && focused {
        bolded(colors(active(t).amber_bright, active(t).bg))
    } else if here {
        colors(active(t).amber, active(t).bg)
    } else {
        colors(active(t).normal, active(t).bg)
    }
}

/// The room the sound's name gets: what is left after the columns that
/// follow it, between four and fourteen cells.
pub open spec fn name_width(left: int) -> int {
    let free = if left > 17 { left - 17 } else { 0 };
    if free < 4 {
        4
    } else if free > 14 {
        14
    } else {
        free
    }
}

/// A pad's row: the caret, the pad's name, the sound's name, the count, the
/// trigger, the polyphony, the choke group, the missing-file mark and the
/// source mark, in the order they matter, each dropped whole when it does
/// not fit — so the source mark goes first and the warning after it.
pub open spec fn pad_row_spec(t: &ActiveTheme, p: PadLine, here: bool, focused: bool, width: int) -> Seq<
    (Seq<char>, Style),
> {
    let ls = label_style_spec(t, here, focused);
    let dim = colors(active(t).dim, active(t).bg);
    let caret = if here { seq![' ', '\u{25B8}', ' '] } else { seq![' ', ' ', ' '] };
    let m1 = row_push(empty_row(width), caret, ls);
    let m2 = row_push(m1, left_aligned_spec(p.label@, 4), ls);
    let w = name_width(m2.1);
    let m3 = row_push(
        m2,
        left_aligned_spec(clip_text_spec(p.what@, w), w as nat),
        colors(active(t).normal, active(t).bg),
    );
    let m4 = row_push(m3, right_aligned_spec(decimal_spec(p.count as nat), 2) + seq![' '], dim);
    let m5 = row_push(m4, left_aligned_spec(p.trig@, 9), dim);
    let m6 = row_push(m5, seq!['p'] + decimal_spec(p.poly as nat), dim);
    let m7 = if p.choke > 0 {
        row_push(m6, seq![' ', 'c'] + decimal_spec(p.choke as nat), dim)
    } else {
        m6
    };
    let m8 = if p.missing {
        row_push(m7, seq![' ', '!'], colors(active(t).rec_active, active(t).bg))
    } else {
        m7
    };
    let m9 = if p.source {
        row_push(m8, seq![' ', source_mark()], colors(active(t).amber, active(t).bg))
    } else {
        m8
    };
    m9.0
}

pub fn pad_row(t: &ActiveTheme, p: &PadLine, here: bool, focused: bool, width: usize) -> (spans: Vec<Span>)
    ensures
        span_views(spans@) == pad_row_spec(t, *p, here, focused, width as int),
{
    proof {
        reveal_strlit(" \u{25B8} ");
        reveal_strlit("   ");
        reveal_strlit(" ");
        reveal_strlit("p");
        reveal_strlit(" c");
        reveal_strlit(" !");
        reveal_strlit(" \u{25CE}");
    }
    assert(" "@ =~= seq![' ']);
    assert("p"@ =~= seq!['p']);
    assert(" c"@ =~= seq![' ', 'c']);
    assert(" !"@ =~= seq![' ', '!']);
    let ls = if here && focused {
        theme::amber_bright(t).bold()
    } else if here {
        theme::amber(t)
    } else {
        theme::normal(t)
    };
    let mut row = Row::new(width);
    let caret = if here { String::from_str(" \u{25B8} ") } else { String::from_str("   ") };
    assert(caret@ =~= (if here { seq![' ', '\u{25B8}', ' '] } else { seq![' ', ' ', ' '] }));
    row.push(caret, ls);
    row.push(left_aligned(p.label.as_str(), 4), ls);
    let left = row.left();
    let free = if left > 17 { left - 17 } else { 0 };
    let w = if free < 4 { 4 } else if free > 14 { 14 } else { free };
    let name = clip_text(p.what.as_str(), w);
    row.push(left_aligned(name.as_str(), w), theme::normal(t));
    let n = decimal(p.count);
    let n = right_aligned(n.as_str(), 2);
    row.push(concatenated(n.as_str(), " "), theme::dim(t));
    row.push(left_aligned(p.trig.as_str(), 9), theme::dim(t));
    let poly = decimal(p.poly);
    row.push(concatenated("p", poly.as_str()), theme::dim(t));
    if p.choke > 0 {
        let choke = decimal(p.choke);
        row.push(concatenated(" c", choke.as_str()), theme::dim(t));
    }
    if p.missing {
        row.push(String::from_str(" !"), crate::fx::alarm_style(t));
    }
    if p.source {
        assert(" \u{25CE}"@ =~= seq![' ', source_mark()]);
        row.push(String::from_str(" \u{25CE}"), theme::amber(t));
    }
    row.line()
}

/// Some pad on the list remembers an instrument.
pub open spec fn any_source(pads: Seq<PadLine>) -> bool {
    exists|i: int| 0 <= i < pads.len() && #[trigger] pads[i].source
}

/// Where on the list the pad under the caret stands: its place when it is
/// on the list, the top when it is not.
pub open spec fn caret_index(len: int, cursor: Option<usize>) -> int {
    match cursor {
        Some(c) => if c < len { c as int } else { 0 },
        None => 0,
    }
}

/// The rows under the head, one at least, and no more than the pads left
/// from `start`.
pub open spec fn rows_shown(height: int, len: int, start: int) -> int {
    let rows = if height >= 1 { height - 1 } else { 0 };
    let take = if rows >= 1 { rows } else { 1 };
    if take < len - start { take } else { len - start }
}

/// The first row the list draws.
pub open spec fn first_shown(height: int, len: int, cursor: Option<usize>) -> int {
    list_start_spec(caret_index(len, cursor), len, if height >= 1 { height - 1 } else { 0 })
}

/// The filled-pad list: its head, then either the two lines that say how to
/// put a sound on a pad, or the rows of the pads in the window that holds
/// the pad under the caret (`cursor`, its place on the list).
pub open spec fn pad_list_spec(
    t: &ActiveTheme,
    focused: bool,
    pads: Seq<PadLine>,
    cursor: Option<usize>,
    held: Option<String>,
    width: int,
    height: int,
) -> Seq<Seq<(Seq<char>, Style)>> {
    let head = list_head_spec(t, focused, pads.len(), held, any_source(pads), width);
    let dim = colors(active(t).dim, active(t).bg);
    if pads.len() == 0 {
        seq![
            head,
            seq![(clip_text_spec("  play a key to pick a pad, then a"@, width), dim)],
            seq![(clip_text_spec("  to load a sound onto it"@, width), dim)],
        ]
    } else {
        let start = first_shown(height, pads.len() as int, cursor);
        seq![head] + Seq::new(
            rows_shown(height, pads.len() as int, start) as nat,
            |k: int|
                pad_row_spec(t, pads[start + k], cursor == Some((start + k) as usize), focused, width),
        )
    }
}

pub fn pad_list(
    t: &ActiveTheme,
    focused: bool,
    pads: &Vec<PadLine>,
    cursor: Option<usize>,
    held: &Option<String>,
    width: usize,
    height: usize,
) -> (lines: Vec<Vec<Span>>)
    ensures
        lines@.len() == pad_list_spec(t, focused, pads@, cursor, *held, width as int, height as int).len(),
        forall|i: int|
            0 <= i < lines@.len() ==> span_views(#[trigger] lines@[i]@) == pad_list_spec(
                t,
                focused,
                pads@,
                cursor,
                *held,
                width as int,
                height as int,
            )[i],
{
    let ghost want = pad_list_spec(t, focused, pads@, cursor, *held, width as int, height as int);
    let mut marked = false;
    let mut i: usize = 0;
    while i < pads.len()
        invariant
            i <= pads@.len(),
            marked == exists|j: int| 0 <= j < i && #[trigger] pads@[j].source,
        decreases pads@.len() - i,
    {
        if pads[i].source {
            marked = true;
        }
        i += 1;
    }
    let head = list_head(t, focused, pads.len() as u64, held, marked, width);
    let mut lines: Vec<Vec<Span>> = Vec::new();
    lines.push(head);
    if pads.len() == 0 {
        lines.push(vec![Span::styled(clip_text("  play a key to pick a pad, then a", width), theme::dim(t))]);
        lines.push(vec![Span::styled(clip_text("  to load a sound onto it", width), theme::dim(t))]);
        assert(span_views(lines@[1]@) =~= want[1]);
        assert(span_views(lines@[2]@) =~= want[2]);
        return lines;
    }
    let rows = if height >= 1 { height - 1 } else { 0 };
    let here = match cursor {
        Some(c) => if c < pads.len() { c } else { 0 },
        None => 0,
    };
    let start = list_start(here, pads.len(), rows);
    let take = if rows >= 1 { rows } else { 1 };
    let shown = if take < pads.len() - start { take } else { pads.len() - start };
    assert(start == first_shown(height as int, pads@.len() as int, cursor));
    assert(shown == rows_shown(height as int, pads@.len() as int, start as int));
    let mut k: usize = 0;
    while k < shown
        invariant
            k <= shown,
            start + shown <= pads.len(),
            lines@.len() == 1 + k,
            span_views(lines@[0]@) == want[0],
            want.len() == 1 + shown,
            forall|j: int| 1 <= j < lines@.len() ==> span_views(#[trigger] lines@[j]@) == want[j],
            forall|j: int|
                1 <= j <= shown ==> #[trigger] want[j] == pad_row_spec(
                    t,
                    pads@[start + j - 1],
                    cursor == Some((start + j - 1) as usize),
                    focused,
                    width as int,
                ),
        decreases shown - k,
    {
        let at = start + k;
        let here_row = match cursor {
            Some(c) => c == at,
            None => false,
        };
        let row = pad_row(t, &pads[at], here_row, focused, width);
        lines.push(row);
        k += 1;
    }
    lines
}

/// Where a source-mode take stands.
#[derive(Clone, Copy, Debug, PartialEq, Eq, Structural)]
pub enum Capture {
    /// Nothing is armed: the keys play the instrument.
    Idle,
    /// Armed, and waiting for the bar line that opens it.
    Armed,
    /// Open, with the notes it has caught so far.
    Recording { notes: u64, whole_bars: bool },
}

/// Source mode as its banner reads it: the instrument the keys are
/// playing, the pad a take lands on, what kind of take `r` will land, and
/// where the take stands.
pub struct SourceBanner {
    pub instrument: String,
    pub pad: String,
    pub take: String,
    pub capture: Capture,
}

/// What the banner says after its mark.
pub open spec fn banner_text_spec(b: SourceBanner) -> Seq<char> {
    let take = "take: "@ + b.take@;
    match b.capture {
        Capture::Idle => "source \u{00b7} "@ + b.instrument@ + " \u{00b7} pad "@ + b.pad@ + " \u{00b7} "@
            + take + " \u{00b7} p swaps \u{00b7} r records \u{00b7} esc puts the sampler back"@,
        Capture::Armed => "armed \u{00b7} pad "@ + b.pad@ + " \u{00b7} "@ + take
            + " \u{00b7} it opens at the next bar line"@,
        Capture::Recording { notes, whole_bars } => "recording \u{00b7} pad "@ + b.pad@ + " \u{00b7} "@
            + take + " \u{00b7} "@ + decimal_spec(notes as nat) + " note"@ + (if notes == 1 {
            ""@
        } else {
            "s"@
        }) + " \u{00b7} "@ + (if whole_bars {
            "whole bars"@
        } else {
            "free"@
        }) + " \u{00b7} r ends it"@,
    }
}

/// The banner row: a mark and the sentence, amber while the keys only play
/// the instrument and red once a take is armed or open; the sentence is cut
/// to the room left after the mark.
pub open spec fn banner_spec(t: &ActiveTheme, b: SourceBanner, width: int) -> Seq<(Seq<char>, Style)> {
    let style = match b.capture {
        Capture::Idle => colors(active(t).amber_bright, active(t).bg),
        _ => colors(active(t).rec_active, active(t).bg),
    };
    let mark = match b.capture {
        Capture::Idle => '\u{25B8}',
        _ => '\u{25CF}',
    };
    let m1 = row_push(empty_row(width), seq![' ', mark, ' '], style);
    let m2 = row_push(m1, clip_text_spec(banner_text_spec(b), if width >= 3 { width - 3 } else { 0 }), style);
    m2.0
}

fn banner_text(b: &SourceBanner) -> (s: String)
    ensures
        s@ == banner_text_spec(*b),
{
    let take = concatenated("take: ", b.take.as_str());
    match b.capture {
        Capture::Idle => {
            let s = concatenated("source \u{00b7} ", b.instrument.as_str());
            let s = concatenated(s.as_str(), " \u{00b7} pad ");
            let s = concatenated(s.as_str(), b.pad.as_str());
            let s = concatenated(s.as_str(), " \u{00b7} ");
            let s = concatenated(s.as_str(), take.as_str());
            concatenated(s.as_str(), " \u{00b7} p swaps \u{00b7} r records \u{00b7} esc puts the sampler back")
        },
        Capture::Armed => {
            let s = concatenated("armed \u{00b7} pad ", b.pad.as_str());
            let s = concatenated(s.as_str(), " \u{00b7} ");
            let s = concatenated(s.as_str(), take.as_str());
            concatenated(s.as_str(), " \u{00b7} it opens at the next bar line")
        },
        Capture::Recording { notes, whole_bars } => {
            let s = concatenated("recording \u{00b7} pad ", b.pad.as_str());
            let s = concatenated(s.as_str(), " \u{00b7} ");
            let s = concatenated(s.as_str(), take.as_str());
            let s = concatenated(s.as_str(), " \u{00b7} ");
            let n = decimal(notes);
            let s = concatenated(s.as_str(), n.as_str());
            let s = concatenated(s.as_str(), " note");
            let s = concatenated(s.as_str(), if notes == 1 { "" } else { "s" });
            let s = concatenated(s.as_str(), " \u{00b7} ");
            let s = concatenated(s.as_str(), if whole_bars { "whole bars" } else { "free" });
            concatenated(s.as_str(), " \u{00b7} r ends it")
        },
    }
}

/// The one line that says the track is not playing its sampler.
pub fn source_banner(t: &ActiveTheme, b: &SourceBanner, width: usize) -> (spans: Vec<Span>)
    ensures
        span_views(spans@) == banner_spec(t, *b, width as int),
{
    let red = crate::fx::alarm_style(t);
    let (mark, style) = match b.capture {
        Capture::Idle => (String::from_str(" \u{25B8} "), theme::amber_bright(t)),
        _ => (String::from_str(" \u{25CF} "), red),
    };
    proof {
        reveal_strlit(" \u{25B8} ");
        reveal_strlit(" \u{25CF} ");
    }
    assert(mark@ =~= seq![' ', (match b.capture { Capture::Idle => '\u{25B8}', _ => '\u{25CF}' }), ' ']);
    let mut row = Row::new(width);
    row.push(mark, style);
    let text = banner_text(b);
    let room = if width >= 3 { width - 3 } else { 0 };
    row.push(clip_text(text.as_str(), room), style);
    row.line()
}

/// One zone as the zone list reads it.
pub struct ZoneLine {
    /// The keys it spans, such as `C2-B3`.
    pub span: String,
    /// What it plays.
    pub sound: String,
    /// How many layers its sound has.
    pub layers: u64,
    /// The name of the key its sound was recorded at.
    pub root: String,
    /// How many keys it covers.
    pub keys: u64,
    /// A layer of its sound has lost its file.
    pub missing: bool,
}

/// A zone's row: the caret, the span, the sound's name, the layer count,
/// the root and the width in keys, then the missing-file mark — the width
/// dropped before the root, and the root before the name.
pub open spec fn zone_row_spec(t: &ActiveTheme, z: ZoneLine, here: bool, focused: bool, width: int) -> Seq<
    (Seq<char>, Style),
> {
    let ls = label_style_spec(t, here, focused);
    let dim = colors(active(t).dim, active(t).bg);
    let caret = if here { seq![' ', '\u{25B8}', ' '] } else { seq![' ', ' ', ' '] };
    let m1 = row_push(empty_row(width), caret, ls);
    let m2 = row_push(m1, left_aligned_spec(z.span@, 8), ls);
    let w = name_width(m2.1 - 2);
    let m3 = row_push(
        m2,
        left_aligned_spec(clip_text_spec(z.sound@, w), w as nat),
        colors(active(t).normal, active(t).bg),
    );
    let m4 = row_push(m3, right_aligned_spec(decimal_spec(z.layers as nat), 2) + seq![' '], dim);
    let m5 = row_push(m4, seq!['r', 'o', 'o', 't', ' '] + left_aligned_spec(z.root@, 4), dim);
    let m6 = row_push(m5, right_aligned_spec(decimal_spec(z.keys as nat), 2) + seq![' ', 'k', 'e', 'y', 's'], dim);
    let m7 = if z.missing {
        row_push(m6, seq![' ', '!'], colors(active(t).rec_active, active(t).bg))
    } else {
        m6
    };
    m7.0
}

pub fn zone_row(t: &ActiveTheme, z: &ZoneLine, here: bool, focused: bool, width: usize) -> (spans: Vec<Span>)
    ensures
        span_views(spans@) == zone_row_spec(t, *z, here, focused, width as int),
{
    proof {
        reveal_strlit(" \u{25B8} ");
        reveal_strlit("   ");
        reveal_strlit(" ");
        reveal_strlit("root ");
        reveal_strlit(" keys");
        reveal_strlit(" !");
    }
    assert(" "@ =~= seq![' ']);
    assert("root "@ =~= seq!['r', 'o', 'o', 't', ' ']);
    assert(" keys"@ =~= seq![' ', 'k', 'e', 'y', 's']);
    assert(" !"@ =~= seq![' ', '!']);
    let ls = if here && focused {
        theme::amber_bright(t).bold()
    } else if here {
        theme::amber(t)
    } else {
        theme::normal(t)
    };
    let mut row = Row::new(width);
    let caret = if here { String::from_str(" \u{25B8} ") } else { String::from_str("   ") };
    assert(caret@ =~= (if here { seq![' ', '\u{25B8}', ' '] } else { seq![' ', ' ', ' '] }));
    row.push(caret, ls);
    row.push(left_aligned(z.span.as_str(), 8), ls);
    let left = row.left();
    let free = if left > 19 { left - 19 } else { 0 };
    let w = if free < 4 { 4 } else if free > 14 { 14 } else { free };
    let name = clip_text(z.sound.as_str(), w);
    row.push(left_aligned(name.as_str(), w), theme::normal(t));
    let n = decimal(z.layers);
    let n = right_aligned(n.as_str(), 2);
    row.push(concatenated(n.as_str(), " "), theme::dim(t));
    let root = left_aligned(z.root.as_str(), 4);
    row.push(concatenated("root ", root.as_str()), theme::dim(t));
    let k = decimal(z.keys);
    let k = right_aligned(k.as_str(), 2);
    row.push(concatenated(k.as_str(), " keys"), theme::dim(t));
    if z.missing {
        row.push(String::from_str(" !"), crate::fx::alarm_style(t));
    }
    row.line()
}

/// The zone list's head: its name, and how many zones there are.
pub open spec fn zone_head_spec(t: &ActiveTheme, focused: bool, zones: nat, width: int) -> Seq<(Seq<char>, Style)> {
    let m1 = row_push(empty_row(width), seq![' ', ' ', 'z', 'o', 'n', 'e', 's'], heading_spec(t, focused));
    let count = if zones == 0 {
        seq![' ', '\u{00b7}', ' ', 'n', 'o', 'n', 'e', ' ', 'y', 'e', 't']
    } else {
        seq![' ', '\u{00b7}', ' '] + decimal_spec(zones)
    };
    row_push(m1, count, colors(active(t).dim, active(t).bg)).0
}

/// The zone list: its head, then either the two lines that say which keys
/// make a zone, or the rows of the zones in the window that holds the zone
/// under the caret (`cursor`, its place on the list).
pub open spec fn zone_list_spec(
    t: &ActiveTheme,
    focused: bool,
    zones: Seq<ZoneLine>,
    cursor: Option<usize>,
    width: int,
    height: int,
) -> Seq<Seq<(Seq<char>, Style)>> {
    let head = zone_head_spec(t, focused, zones.len(), width);
    let dim = colors(active(t).dim, active(t).bg);
    if zones.len() == 0 {
        seq![
            head,
            seq![(clip_text_spec("  w covers the whole bed \u{00b7} o this octave"@, width), dim)],
            seq![(clip_text_spec("  s splits the zone under the caret"@, width), dim)],
        ]
    } else {
        let start = first_shown(height, zones.len() as int, cursor);
        seq![head] + Seq::new(
            rows_shown(height, zones.len() as int, start) as nat,
            |k: int|
                zone_row_spec(t, zones[start + k], cursor == Some((start + k) as usize), focused, width),
        )
    }
}

pub fn zone_list(
    t: &ActiveTheme,
    focused: bool,
    zones: &Vec<ZoneLine>,
    cursor: Option<usize>,
    width: usize,
    height: usize,
) -> (lines: Vec<Vec<Span>>)
    ensures
        lines@.len() == zone_list_spec(t, focused, zones@, cursor, width as int, height as int).len(),
        forall|i: int|
            0 <= i < lines@.len() ==> span_views(#[trigger] lines@[i]@) == zone_list_spec(
                t,
                focused,
                zones@,
                cursor,
                width as int,
                height as int,
            )[i],
{
    let ghost want = zone_list_spec(t, focused, zones@, cursor, width as int, height as int);
    proof {
        reveal_strlit("  zones");
        reveal_strlit(" \u{00b7} none yet");
        reveal_strlit(" \u{00b7} ");
    }
    let mut head = Row::new(width);
    assert("  zones"@ =~= seq![' ', ' ', 'z', 'o', 'n', 'e', 's']);
    head.push(String::from_str("  zones"), heading(t, focused));
    let count = if zones.len() == 0 {
        String::from_str(" \u{00b7} none yet")
    } else {
        let n = decimal(zones.len() as u64);
        concatenated(" \u{00b7} ", n.as_str())
    };
    assert(count@ =~= (if zones@.len() == 0 {
        seq![' ', '\u{00b7}', ' ', 'n', 'o', 'n', 'e', ' ', 'y', 'e', 't']
    } else {
        seq![' ', '\u{00b7}', ' '] + decimal_spec(zones@.len())
    }));
    head.push(count, theme::dim(t));
    let mut lines: Vec<Vec<Span>> = Vec::new();
    lines.push(head.line());
    if zones.len() == 0 {
        lines.push(vec![Span::styled(clip_text("  w covers the whole bed \u{00b7} o this octave", width), theme::dim(t))]);
        lines.push(vec![Span::styled(clip_text("  s splits the zone under the caret", width), theme::dim(t))]);
        assert(span_views(lines@[1]@) =~= want[1]);
        assert(span_views(lines@[2]@) =~= want[2]);
        return lines;
    }
    let rows = if height >= 1 { height - 1 } else { 0 };
    let here = match cursor {
        Some(c) => if c < zones.len() { c } else { 0 },
        None => 0,
    };
    let start = list_start(here, zones.len(), rows);
    let take = if rows >= 1 { rows } else { 1 };
    let shown = if take < zones.len() - start { take } else { zones.len() - start };
    assert(start == first_shown(height as int, zones@.len() as int, cursor));
    assert(shown == rows_shown(height as int, zones@.len() as int, start as int));
    let mut k: usize = 0;
    while k < shown
        invariant
            k <= shown,
            start + shown <= zones.len(),
            lines@.len() == 1 + k,
            span_views(lines@[0]@) == want[0],
            want.len() == 1 + shown,
            forall|j: int| 1 <= j < lines@.len() ==> span_views(#[trigger] lines@[j]@) == want[j],
            forall|j: int|
                1 <= j <= shown ==> #[trigger] want[j] == zone_row_spec(
                    t,
                    zones@[start + j - 1],
                    cursor == Some((start + j - 1) as usize),
                    focused,
                    width as int,
                ),
        decreases shown - k,
    {
        let at = start + k;
        let here_row = match cursor {
            Some(c) => c == at,
            None => false,
        };
        let row = zone_row(t, &zones[at], here_row, focused, width);
        lines.push(row);
        k += 1;
    }
    lines
}

/// What keys mode adds under the keyboard: the zones, and which of them
/// the caret stands in.
pub struct RuleInput {
    pub zones: Vec<ZoneSpan>,
    pub here: Option<usize>,
}

/// How the bed's key `note` is loaded, read from the pads' loads (one a
/// pad from the bottom of the bed); a key off the bed plays nothing.
pub open spec fn load_of_spec(loads: Seq<KeyLoad>, note: int) -> KeyLoad {
    if BED_LOW <= note && note - BED_LOW < loads.len() {
        loads[note - BED_LOW]
    } else {
        KeyLoad { pad: None, count: 0, missing: false, root: false }
    }
}

fn load_of(loads: &Vec<KeyLoad>, note: u8) -> (l: KeyLoad)
    ensures
        l == load_of_spec(loads@, note as int),
{
    if note >= BED_LOW && ((note - BED_LOW) as usize) < loads.len() {
        let l = &loads[(note - BED_LOW) as usize];
        KeyLoad { pad: l.pad, count: l.count, missing: l.missing, root: l.root }
    } else {
        KeyLoad { pad: None, count: 0, missing: false, root: false }
    }
}

/// How the bed paints key `note`.
pub open spec fn bed_paint(t: &ActiveTheme, loads: Seq<KeyLoad>, cursor: int, colour: Color, note: int) -> KeyPaint {
    key_paint_spec(t, note, load_of_spec(loads, note), cursor, colour)
}

/// Where the band over the pad map starts, for the pad under the cursor.
pub open spec fn bed_lo(cursor: int, width: int) -> int {
    keyboard::window_lo_spec(BED_LOW as int, BED_HIGH as int, width, BED_LOW + cursor)
}

/// The keys the band over the pad map draws, left to right: each white key,
/// its paint, and the paint of the black key above it where there is one.
pub open spec fn bed_keys(t: &ActiveTheme, loads: Seq<KeyLoad>, cursor: int, colour: Color, lo: int, width: int) -> Seq<
    (u8, KeyPaint, Option<KeyPaint>),
> {
    Seq::new(
        keyboard::drawn_spec(lo, BED_HIGH as int, width) as nat,
        |i: int|
            {
                let w = keyboard::white_at_spec(lo, i);
                (
                    w as u8,
                    bed_paint(t, loads, cursor, colour, w),
                    if w + 1 <= BED_HIGH && keyboard::black(w + 1) {
                        Some(bed_paint(t, loads, cursor, colour, w + 1))
                    } else {
                        None
                    },
                )
            },
    )
}

/// The band over the pad map: the caret over the key being edited, the
/// keyboard scrolled to keep it in sight with each key painted from its
/// pad's load (`loads`, one a pad from the bottom of the bed), and in keys
/// mode the rule that braces the zones. No row is wider than the pane,
/// and the rule is the one row keys mode adds.
pub fn band_lines(
    t: &ActiveTheme,
    focused: bool,
    cursor: usize,
    loads: &Vec<KeyLoad>,
    colour: Color,
    rule: &Option<RuleInput>,
    width: usize,
) -> (lines: Vec<Vec<Span>>)
    requires
        cursor <= 87,
    ensures
        lines@.len() == 1 + keyboard::ROWS + if rule is Some { 1int } else { 0int },
        forall|r: int| 0 <= r < lines@.len() ==> width_of(#[trigger] lines@[r]@) <= if width >= 1 { width as int } else { 1 },
        span_views(lines@[0]@) == caret_spec(
            t,
            focused,
            bed_lo(cursor as int, width as int),
            BED_LOW + cursor,
            width as int,
        ),
        forall|r: int|
            1 <= r <= keyboard::ROWS ==> keyboard::row_ok(
                t,
                cells_of(#[trigger] lines@[r]@),
                keyboard::margin_spec(width as int),
                bed_keys(t, loads@, cursor as int, colour, bed_lo(cursor as int, width as int), width as int),
                r - 1,
            ),
        match *rule {
            Some(ri) => {
                let lo = bed_lo(cursor as int, width as int);
                &&& cells_of(lines@[lines@.len() - 1]@).len() == width
                &&& forall|c: int|
                    0 <= c < width ==> #[trigger] cells_of(lines@[lines@.len() - 1]@)[c] == rule_cell(
                        t,
                        ri.zones@,
                        lo,
                        width as int,
                        ri.here,
                        focused,
                        colour,
                        c,
                    )
            },
            None => true,
        },
{
    let note = BED_LOW + cursor as u8;
    let lo = keyboard::window_lo(BED_LOW, BED_HIGH, width, note);
    let mut lines: Vec<Vec<Span>> = Vec::new();
    let caret = caret_line(t, focused, lo, note, width);
    proof {
        let c = caret@;
        let v = span_views(c);
        assert(v.len() == c.len());
        assert(crate::text::text_of(Seq::<Span>::empty()) =~= Seq::<char>::empty());
        if keyboard::column_spec(lo as int, note as int) >= width {
            assert(c.len() == 1);
            assert(v[0] == (c[0].text@, c[0].style));
            assert(c.drop_last() =~= Seq::<Span>::empty());
            assert(crate::text::text_of(c.drop_last()) =~= Seq::<char>::empty());
            assert(crate::text::text_of(c) =~= c[0].text@);
        } else {
            assert(c.len() == 2);
            assert(v[0] == (c[0].text@, c[0].style));
            assert(v[1] == (c[1].text@, c[1].style));
            let d = c.drop_last();
            assert(d.drop_last() =~= Seq::<Span>::empty());
            assert(crate::text::text_of(d.drop_last()) =~= Seq::<char>::empty());
            assert(d.last() == c[0]);
            assert(crate::text::text_of(d) =~= c[0].text@);
            assert(crate::text::text_of(c) =~= c[0].text@ + c[1].text@);
        }
        assert(width_of(c) <= if width >= 1 { width as int } else { 1 });
    }
    lines.push(caret);
    let paint = |n: u8| -> (k: KeyPaint)
        ensures
            k == bed_paint(t, loads@, cursor as int, colour, n as int),
    {
        let load = load_of(loads, n);
        key_paint(t, n, &load, cursor, colour)
    };
    let mut keys = keyboard::band(t, lo, BED_HIGH, width, paint);
    let ghost first = lines@;
    let ghost rows = keys@;
    proof {
        let ks = choose|ks: Seq<(u8, KeyPaint, Option<KeyPaint>)>| #[trigger] keyboard::band_drawn(
            t,
            paint,
            lo as int,
            BED_HIGH as int,
            width as int,
            rows,
            ks,
        );
        let want = bed_keys(t, loads@, cursor as int, colour, lo as int, width as int);
        assert forall|i: int| 0 <= i < ks.len() implies #[trigger] ks[i] == want[i] by {
            assert(keyboard::drawn_ok(paint, ks[i], lo as int, BED_HIGH as int, i));
            keyboard::lemma_white_at_own_index(lo as int, ks[i].0 as int);
        }
        assert(ks =~= want);
    }
    lines.append(&mut keys);
    assert(lines@ == first + rows);
    assert forall|r: int| 0 <= r < lines@.len() implies width_of(#[trigger] lines@[r]@) <= if width >= 1 {
        width as int
    } else {
        1
    } by {
        if r >= 1 {
            assert(lines@[r] == rows[r - 1]);
        }
    }
    assert forall|r: int| 1 <= r <= keyboard::ROWS implies keyboard::row_ok(
        t,
        cells_of(#[trigger] lines@[r]@),
        keyboard::margin_spec(width as int),
        bed_keys(t, loads@, cursor as int, colour, lo as int, width as int),
        r - 1,
    ) by {
        assert(lines@[r] == rows[r - 1]);
    }
    match rule {
        Some(ri) => {
            let line = rule_line(t, &ri.zones, lo, width, ri.here, focused, colour);
            proof {
                crate::text::lemma_cells_width(line@);
            }
            lines.push(line);
        },
        None => {},
    }
    lines
}

} // verus!
