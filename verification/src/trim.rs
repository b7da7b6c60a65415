//! The trim strip's words and rows: the header that names the layer and
//! every switch the keys can throw, how a pane's height is shared between
//! the header, the waveform, the marker ruler and the keys, and the keys'
//! own line.

use vstd::prelude::*;

use crate::kit::{heading, heading_spec};
use crate::pads::{clip_text, clip_text_spec, row_push, Row};
use crate::style::{colors, Style};
use crate::text::{concatenated, span_views, Span};
use crate::theme::{self, active, ActiveTheme};

verus! {

/// The tallest the waveform is drawn.
pub const MAX_WAVE_ROWS: usize = 12;

/// Rows the strip spends on words: the header, the marker ruler, the keys.
pub const CHROME_ROWS: usize = 3;

/// How a strip `height` rows tall is shared out: the header always, the
/// waveform what the words leave (one row at least, twelve at most), then
/// the marker ruler and the keys while there is room — so on a short pane
/// the words go one at a time and the waveform keeps a row.
#[derive(Clone, Copy, Debug, PartialEq, Eq, Structural)]
pub struct StripRows {
    pub header: bool,
    pub wave: usize,
    pub marker: bool,
    pub keys: bool,
}

pub open spec fn strip_rows_spec(height: int) -> StripRows {
    if height == 0 {
        StripRows { header: false, wave: 0, marker: false, keys: false }
    } else {
        let want = if height - CHROME_ROWS < 1 {
            1
        } else if height - CHROME_ROWS > MAX_WAVE_ROWS {
            MAX_WAVE_ROWS as int
        } else {
            height - CHROME_ROWS
        };
        let wave = if height > 1 {
            if want < height - 1 { want } else { height - 1 }
        } else {
            0
        };
        StripRows {
            header: true,
            wave: wave as usize,
            marker: height > 1 + wave,
            keys: height > 2 + wave,
        }
    }
}

/// The rows a strip draws. They never outnumber the pane, they fill it up
/// to the tallest strip there is, and a pane of two rows or more always
/// gets some waveform.
pub fn strip_rows(height: usize) -> (r: StripRows)
    ensures
        r == strip_rows_spec(height as int),
        (if r.header { 1int } else { 0int }) + r.wave + (if r.marker { 1int } else { 0int }) + (if r.keys {
            1int
        } else {
            0int
        }) == (if height < MAX_WAVE_ROWS + CHROME_ROWS { height as int } else { (MAX_WAVE_ROWS
            + CHROME_ROWS) as int }),
        height > 1 ==> r.wave >= 1,
{
    if height == 0 {
        return StripRows { header: false, wave: 0, marker: false, keys: false };
    }
    let want = if height <= CHROME_ROWS {
        1
    } else if height - CHROME_ROWS > MAX_WAVE_ROWS {
        MAX_WAVE_ROWS
    } else {
        height - CHROME_ROWS
    };
    let wave = if height > 1 {
        if want < height - 1 { want } else { height - 1 }
    } else {
        0
    };
    StripRows { header: true, wave, marker: height > 1 + wave, keys: height > 2 + wave }
}

/// The strip's header, as its parts come written out: which pad, which
/// layer and how long it plays, the nudge unit, the snap, the region's two
/// edges, and `rev` when it plays backwards. The name gets what the rest
/// leave, between four and twenty cells.
pub struct StripHeader {
    pub pad: String,
    pub name: String,
    /// The layer's length, such as `0.250s`.
    pub seconds: String,
    /// The nudge unit's name, such as `10ms`.
    pub unit: String,
    pub snap: bool,
    /// Where the region starts, such as `0.010s`.
    pub start: String,
    /// Where it ends.
    pub end: String,
    pub reverse: bool,
}

pub open spec fn strip_header_spec(t: &ActiveTheme, h: StripHeader, focused: bool, width: int) -> Seq<
    (Seq<char>, Style),
> {
    let dim = colors(active(t).dim, active(t).bg);
    let amber = colors(active(t).amber, active(t).bg);
    let normal = colors(active(t).normal, active(t).bg);
    let m1 = row_push((Seq::empty(), width), seq![' '] + h.pad@ + seq![' '], heading_spec(t, focused));
    let free = if m1.1 > 40 { m1.1 - 40 } else { 0 };
    let w = if free < 4 { 4 } else if free > 20 { 20 } else { free };
    let m2 = row_push(m1, clip_text_spec(h.name@, w), normal);
    let m3 = row_push(m2, " \u{00b7} "@ + h.seconds@, dim);
    let m4 = row_push(m3, " \u{00b7} unit "@ + h.unit@, colors(active(t).amber_bright, active(t).bg));
    let m5 = row_push(
        m4,
        " \u{00b7} snap "@ + (if h.snap { "on"@ } else { "off"@ }),
        if h.snap { amber } else { dim },
    );
    let m6 = row_push(m5, " \u{00b7} "@ + h.start@ + " \u{2192} "@ + h.end@, normal);
    let m7 = if h.reverse { row_push(m6, " \u{00b7} rev"@, amber) } else { m6 };
    m7.0
}

pub fn strip_header(t: &ActiveTheme, h: &StripHeader, focused: bool, width: usize) -> (spans: Vec<Span>)
    ensures
        span_views(spans@) == strip_header_spec(t, *h, focused, width as int),
{
    proof { reveal_strlit(" "); }
    assert(" "@ =~= seq![' ']);
    let mut row = Row::new(width);
    let pad = concatenated(" ", h.pad.as_str());
    row.push(concatenated(pad.as_str(), " "), heading(t, focused));
    let left = row.left();
    let free = if left > 40 { left - 40 } else { 0 };
    let w = if free < 4 { 4 } else if free > 20 { 20 } else { free };
    row.push(clip_text(h.name.as_str(), w), theme::normal(t));
    row.push(concatenated(" \u{00b7} ", h.seconds.as_str()), theme::dim(t));
    row.push(concatenated(" \u{00b7} unit ", h.unit.as_str()), theme::amber_bright(t));
    row.push(
        concatenated(" \u{00b7} snap ", if h.snap { "on" } else { "off" }),
        if h.snap { theme::amber(t) } else { theme::dim(t) },
    );
    let edges = concatenated(" \u{00b7} ", h.start.as_str());
    let edges = concatenated(edges.as_str(), " \u{2192} ");
    row.push(concatenated(edges.as_str(), h.end.as_str()), theme::normal(t));
    if h.reverse {
        row.push(String::from_str(" \u{00b7} rev"), theme::amber(t));
    }
    row.line()
}

/// The strip's own keys, on the strip.
pub open spec fn strip_keys_text() -> Seq<char> {
    " h/l start \u{00b7} H/L end \u{00b7} w hug \u{00b7} j/k unit \u{00b7} z snap \u{00b7} r rev \u{00b7} t loop \u{00b7} esc back"@
}

/// The keys' line, cut to the width.
pub fn strip_keys(t: &ActiveTheme, width: usize) -> (spans: Vec<Span>)
    ensures
        span_views(spans@) == seq![(clip_text_spec(strip_keys_text(), width as int), colors(active(t).dim, active(t).bg))],
{
    let spans = vec![Span::styled(
        clip_text(" h/l start \u{00b7} H/L end \u{00b7} w hug \u{00b7} j/k unit \u{00b7} z snap \u{00b7} r rev \u{00b7} t loop \u{00b7} esc back", width),
        theme::dim(t),
    )];
    assert(span_views(spans@) =~= seq![(clip_text_spec(strip_keys_text(), width as int), colors(active(t).dim, active(t).bg))]);
    spans
}

} // verus!
