//! The gain-reduction meter's layout: zero at the right-hand end, the bar
//! growing leftward as gain comes off, and the peak cell out ahead of it.
//!
//! How many cells a reduction lights is a question about decibels and is
//! answered by the caller; what this module decides is where those cells go
//! and how each is drawn.

use vstd::prelude::*;

use crate::style::{bolded, colors, Style};
use crate::text::{concatenated, span_views, Span};
use crate::theme::{self, active, ActiveTheme};

verus! {

/// The peak cell, out ahead of the bar.
pub open spec fn peak_glyph() -> char {
    '\u{2590}'
}

/// One lit cell of the bar.
pub open spec fn lit_glyph() -> char {
    '\u{2588}'
}

/// One unlit cell.
pub open spec fn dark_glyph() -> char {
    '\u{00b7}'
}

/// The glyph in column `x` of a bar `width` wide with `lit` cells lit and
/// the peak held at `held` cells: counted from the right, the held cell wears
/// the peak mark while it stands ahead of the bar, the cells up to `lit` are
/// lit, and the rest are dark.
pub open spec fn bar_glyph(x: int, lit: int, held: int, width: int) -> char {
    let from_right = width - x;
    if held > lit && from_right == held {
        peak_glyph()
    } else if from_right <= lit {
        lit_glyph()
    } else {
        dark_glyph()
    }
}

pub open spec fn bar_spec(lit: int, held: int, width: nat) -> Seq<char> {
    Seq::new(width, |x: int| bar_glyph(x, lit, held, width as int))
}

/// The bar, as characters: `width` cells, zero at the right.
pub fn bar_text(lit: usize, held: usize, width: usize) -> (text: String)
    ensures
        text@ == bar_spec(lit as int, held as int, width as nat),
{
    let mut out = String::new();
    let mut x: usize = 0;
    while x < width
        invariant
            x <= width,
            out@ =~= bar_spec(lit as int, held as int, width as nat).subrange(0, x as int),
        decreases width - x,
    {
        let from_right = width - x;
        let g = if held > lit && from_right == held {
            '\u{2590}'
        } else if from_right <= lit {
            '\u{2588}'
        } else {
            '\u{00b7}'
        };
        crate::text::push_char(&mut out, g);
        x += 1;
    }
    out
}

/// Lit cells fill the bar from the right: whatever is lit is a run at the
/// zero end, and a peak held no further out than the bar has no mark of its
/// own.
pub proof fn lemma_bar_reads_from_the_right(lit: int, held: int, width: int, x: int)
    requires
        0 <= lit <= width,
        0 <= x < width,
    ensures
        bar_glyph(x, lit, held, width) == lit_glyph() <==> (width - x <= lit && !(held > lit
            && width - x == held)),
        held <= lit ==> bar_glyph(x, lit, held, width) != peak_glyph(),
        x >= width - lit ==> bar_glyph(x, lit, held, width) == lit_glyph(),
{
}

/// How one glyph of the bar is drawn.
pub open spec fn glyph_style(t: &ActiveTheme, g: char) -> Style {
    if g == peak_glyph() {
        bolded(colors(active(t).amber_bright, active(t).bg))
    } else if g == lit_glyph() {
        colors(active(t).amber, active(t).bg)
    } else {
        colors(active(t).dim, active(t).bg)
    }
}

/// The cells of the bar as spans, one a cell.
pub open spec fn cell_spans(t: &ActiveTheme, lit: int, held: int, width: nat) -> Seq<(Seq<char>, Style)> {
    Seq::new(width, |x: int| {
        let g = bar_glyph(x, lit, held, width as int);
        (seq![g], glyph_style(t, g))
    })
}

/// The whole meter: its label, if it has one, muted while the meter is
/// working and dim at rest; the rails; one span a cell; and the number.
pub open spec fn meter_spec(
    t: &ActiveTheme,
    label: Seq<char>,
    working: bool,
    lit: int,
    held: int,
    width: nat,
    readout: Seq<char>,
) -> Seq<(Seq<char>, Style)> {
    let dim = colors(active(t).dim, active(t).bg);
    (if label.len() > 0 {
        seq![(label + seq![' '], if working { colors(active(t).muted, active(t).bg) } else { dim })]
    } else {
        Seq::empty()
    }) + seq![(seq!['\u{2595}'], dim)] + cell_spans(t, lit, held, width) + seq![
        (seq!['\u{258F}'], dim),
        (seq![' '] + readout + " dB"@, if working { bolded(colors(active(t).normal, active(t).bg)) } else { dim }),
    ]
}

/// The bar and its number, styled. `working` is whether gain is coming off
/// at all, and greys the meter out when it is not, so a meter at rest does
/// not compete for the eye with one that is working; `readout` is the
/// number as it is printed.
pub fn meter_spans(
    t: &ActiveTheme,
    label: &str,
    working: bool,
    lit: usize,
    held: usize,
    width: usize,
    readout: &str,
) -> (spans: Vec<Span>)
    ensures
        span_views(spans@) == meter_spec(t, label@, working, lit as int, held as int, width as nat, readout@),
{
    proof {
        reveal_strlit(" ");
    }
    let mut spans: Vec<Span> = Vec::new();
    if crate::text::char_count(label) > 0 {
        spans.push(Span::styled(
            concatenated(label, " "),
            if working { theme::muted(t) } else { theme::dim(t) },
        ));
    }
    spans.push(Span::styled(crate::text::char_string('\u{2595}'), theme::dim(t)));
    let ghost head = spans@;
    assert(span_views(head) =~~= (if label@.len() > 0 {
        seq![(label@ + seq![' '], if working { colors(active(t).muted, active(t).bg) } else { colors(active(t).dim, active(t).bg) })]
    } else {
        Seq::empty()
    }) + seq![(seq!['\u{2595}'], colors(active(t).dim, active(t).bg))]);
    let mut x: usize = 0;
    while x < width
        invariant
            x <= width,
            span_views(spans@) =~= span_views(head) + cell_spans(t, lit as int, held as int, width as nat).subrange(0, x as int),
        decreases width - x,
    {
        let from_right = width - x;
        let (g, style) = if held > lit && from_right == held {
            ('\u{2590}', theme::amber_bright(t).bold())
        } else if from_right <= lit {
            ('\u{2588}', theme::amber(t))
        } else {
            ('\u{00b7}', theme::dim(t))
        };
        let ghost before = spans@;
        spans.push(Span::styled(crate::text::char_string(g), style));
        proof {
            let cells = cell_spans(t, lit as int, held as int, width as nat);
            assert(g == bar_glyph(x as int, lit as int, held as int, width as int));
            assert(style == glyph_style(t, g));
            assert(cells[x as int] == (seq![g], style));
            assert(span_views(spans@) =~= span_views(before).push((seq![g], style)));
            assert(cells.subrange(0, x as int + 1) =~= cells.subrange(0, x as int).push(cells[x as int]));
        }
        x += 1;
    }
    spans.push(Span::styled(crate::text::char_string('\u{258F}'), theme::dim(t)));
    let spaced = concatenated(" ", readout);
    spans.push(Span::styled(
        concatenated(spaced.as_str(), " dB"),
        if working { theme::normal(t).bold() } else { theme::dim(t) },
    ));
    proof {
        assert(cell_spans(t, lit as int, held as int, width as nat).subrange(0, width as int)
            =~= cell_spans(t, lit as int, held as int, width as nat));
    }
    assert(span_views(spans@) =~~= meter_spec(t, label@, working, lit as int, held as int, width as nat, readout@));
    spans
}

/// How wide the compressor panel's bar is drawn.
pub const GR_PANEL_WIDTH: usize = 24;

/// ...and the top bar's, where every column is spoken for.
pub const GR_COMPACT_WIDTH: usize = 8;

/// How long a blinking indicator stays lit, and then dark, in milliseconds.
pub const BLINK_MS: u128 = 500;

/// Whether a blinking indicator is lit `elapsed_ms` after the clock started:
/// lit for the first half-second, dark for the next, and so on.
pub open spec fn blink_spec(elapsed_ms: int) -> bool {
    (elapsed_ms / BLINK_MS as int) % 2 == 0
}

/// Whether a blinking indicator is lit at this time on the clock every
/// blinking thing on the screen shares, so that no two are out of phase.
pub fn blink_on(elapsed_ms: u128) -> (on: bool)
    ensures
        on == blink_spec(elapsed_ms as int),
{
    (elapsed_ms / BLINK_MS) % 2 == 0
}

/// A blinking indicator is lit half the time: whatever it is at one moment,
/// half a second later it is the other.
pub proof fn lemma_blink_alternates(elapsed_ms: int)
    requires
        elapsed_ms >= 0,
    ensures
        blink_spec(elapsed_ms) != blink_spec(elapsed_ms + BLINK_MS as int),
{
    assert((elapsed_ms + 500) / 500 == elapsed_ms / 500 + 1) by (nonlinear_arith)
        requires elapsed_ms >= 0;
}

} // verus!
