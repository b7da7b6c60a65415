//! Keys mode's rule: the row under the keyboard that braces each zone over
//! the keys it holds, with a tick where its root is.
//!
//! The cells come from the same [`column_spec`] the keys are drawn at, so
//! a brace is under its keys at every width and scroll position. A black
//! key is the right half of the white key below it; a white key with no
//! black key above it owns both halves. Two zones that touch are `┤├`,
//! with no gap that would say a key belongs to neither.

use vstd::prelude::*;

use crate::keyboard::{black, column_of, column_spec, is_black};
use crate::style::{colors, on, Color, Style};
use crate::text::{cells_of, maximal, merge_cells, Span};
use crate::theme::{self, active, dim_color_spec, ActiveTheme};

verus! {

/// The lowest key on the bed, A0: pad 0.
pub const BED_LOW: u8 = 21;

/// The highest key on the bed, C8.
pub const BED_HIGH: u8 = 108;

/// The last pad on the bed.
pub const LAST_PAD: usize = 87;

/// The brace's two ends, its body, and the tick that marks a root.
pub open spec fn left_end() -> char { '\u{251C}' }
pub open spec fn right_end() -> char { '\u{2524}' }
pub open spec fn body() -> char { '\u{2500}' }
pub open spec fn root_tick() -> char { '\u{253C}' }

/// A zone as the rule reads it: the pads it spans and the key its sound
/// was recorded at.
#[derive(Clone, Copy, Debug, PartialEq, Eq, Structural)]
pub struct ZoneSpan {
    pub lo: usize,
    pub hi: usize,
    pub root: u8,
}

/// The last pad of a zone that is on the bed.
pub open spec fn top_pad(z: ZoneSpan) -> int {
    if z.hi < LAST_PAD { z.hi as int } else { LAST_PAD as int }
}

/// A white key with no black key above it owns both halves of its cell.
pub open spec fn owns_both(note: int) -> bool {
    !black(note) && !(note < BED_HIGH && black(note + 1))
}

/// The key `note` is drawn over cell `c` of a rule `width` cells wide
/// whose keyboard starts at `lo`.
pub open spec fn key_covers(lo: int, note: int, width: int, c: int) -> bool {
    let col = column_spec(lo, note);
    &&& note >= lo
    &&& col < width
    &&& (c == col || (owns_both(note) && c == col + 1 && col + 1 < width))
}

/// Some key of the zone is drawn over cell `c`.
pub open spec fn claims(z: ZoneSpan, lo: int, width: int, c: int) -> bool {
    exists|p: int| z.lo <= p <= top_pad(z) && #[trigger] key_covers(lo, BED_LOW + p, width, c)
}

/// The first zone from `i` on that claims cell `c`.
pub open spec fn owner_from(zones: Seq<ZoneSpan>, lo: int, width: int, c: int, i: int) -> Option<int>
    decreases zones.len() - i,
{
    if i < 0 || i >= zones.len() {
        None
    } else if claims(zones[i], lo, width, c) {
        Some(i)
    } else {
        owner_from(zones, lo, width, c, i + 1)
    }
}

/// The zone cell `c` belongs to: the first that claims it.
pub open spec fn owner(zones: Seq<ZoneSpan>, lo: int, width: int, c: int) -> Option<int> {
    owner_from(zones, lo, width, c, 0)
}

/// Cell `c` is where some zone's root key starts.
pub open spec fn rooted(zones: Seq<ZoneSpan>, lo: int, width: int, c: int) -> bool {
    exists|i: int|
        0 <= i < zones.len() && {
            let r = #[trigger] zones[i].root as int;
            &&& BED_LOW + zones[i].lo <= r <= BED_LOW + top_pad(zones[i])
            &&& r >= lo
            &&& column_spec(lo, r) == c
            &&& c < width
        }
}

/// How a zone is drawn: amber for the one under the caret, the track's
/// colour for the rest, dimmed on every other zone so two that touch are
/// still two.
pub open spec fn zone_style_spec(t: &ActiveTheme, i: int, here: Option<usize>, focused: bool, colour: Color) -> Style {
    if here == Some(i as usize) {
        if focused {
            colors(active(t).amber_bright, active(t).bg)
        } else {
            colors(active(t).amber, active(t).bg)
        }
    } else if i % 2 == 0 {
        colors(colour, active(t).bg)
    } else {
        colors(dim_color_spec(colour, 55), active(t).bg)
    }
}

/// One cell of the rule: air where no zone is; otherwise the tick on a
/// root, the left end where a zone's run starts, the right end where it
/// stops, and the body between.
pub open spec fn rule_cell(
    t: &ActiveTheme,
    zones: Seq<ZoneSpan>,
    lo: int,
    width: int,
    here: Option<usize>,
    focused: bool,
    colour: Color,
    c: int,
) -> (char, Style) {
    match owner(zones, lo, width, c) {
        None => (' ', on(active(t).bg)),
        Some(i) => {
            let glyph = if rooted(zones, lo, width, c) {
                root_tick()
            } else if c == 0 || owner(zones, lo, width, c - 1) != Some(i) {
                left_end()
            } else if c + 1 == width || owner(zones, lo, width, c + 1) != Some(i) {
                right_end()
            } else {
                body()
            };
            (glyph, zone_style_spec(t, i, here, focused, colour))
        },
    }
}

/// Whether zone `z` claims cell `c`, key by key.
fn zone_claims(z: &ZoneSpan, lo: u8, width: usize, c: usize) -> (b: bool)
    ensures
        b == claims(*z, lo as int, width as int, c as int),
{
    let top = if z.hi < LAST_PAD { z.hi } else { LAST_PAD };
    let mut p = z.lo;
    while p <= top
        invariant
            top == top_pad(*z),
            top <= LAST_PAD,
            z.lo <= p,
            forall|q: int| z.lo <= q < p ==> !#[trigger] key_covers(lo as int, BED_LOW + q, width as int, c as int),
        decreases top + 1 - p,
    {
        let note = BED_LOW + p as u8;
        if note >= lo {
            let col = column_of(lo, note);
            if col < width {
                let both = !is_black(note) && !(note < BED_HIGH && is_black(note + 1));
                if c == col || (both && col + 1 < width && c == col + 1) {
                    assert(key_covers(lo as int, BED_LOW + p, width as int, c as int));
                    return true;
                }
            }
        }
        p += 1;
    }
    false
}

/// The zone that owns cell `c`.
fn cell_owner(zones: &Vec<ZoneSpan>, lo: u8, width: usize, c: usize) -> (o: Option<usize>)
    ensures
        match owner(zones@, lo as int, width as int, c as int) {
            Some(i) => 0 <= i < zones.len() && o == Some(i as usize),
            None => o is None,
        },
{
    let mut i: usize = 0;
    while i < zones.len()
        invariant
            i <= zones@.len(),
            owner(zones@, lo as int, width as int, c as int) == owner_from(zones@, lo as int, width as int, c as int, i as int),
        decreases zones@.len() - i,
    {
        if zone_claims(&zones[i], lo, width, c) {
            return Some(i);
        }
        i += 1;
    }
    None
}

/// Whether some zone's root key starts at cell `c`.
fn cell_rooted(zones: &Vec<ZoneSpan>, lo: u8, width: usize, c: usize) -> (b: bool)
    ensures
        b == rooted(zones@, lo as int, width as int, c as int),
{
    let mut i: usize = 0;
    while i < zones.len()
        invariant
            i <= zones@.len(),
            forall|j: int|
                0 <= j < i ==> !({
                    let r = #[trigger] zones@[j].root as int;
                    &&& BED_LOW + zones@[j].lo <= r <= BED_LOW + top_pad(zones@[j])
                    &&& r >= lo
                    &&& column_spec(lo as int, r) == c
                    &&& c < width
                }),
        decreases zones@.len() - i,
    {
        let z = zones[i];
        let top = if z.hi < LAST_PAD { z.hi } else { LAST_PAD };
        let on_bed = z.root >= BED_LOW && (z.root - BED_LOW) as usize >= z.lo
            && (z.root - BED_LOW) as usize <= top;
        if on_bed && z.root >= lo && c < width {
            if column_of(lo, z.root) == c {
                assert(zones@[i as int].root == z.root);
                return true;
            }
        }
        i += 1;
    }
    false
}

/// The cell's owner is zone `i`.
fn held_by(o: Option<usize>, i: usize) -> (b: bool)
    ensures
        b == (o == Some(i)),
{
    match o {
        Some(j) => j == i,
        None => false,
    }
}

/// The zone style, as drawn.
fn zone_style(t: &ActiveTheme, i: usize, here: Option<usize>, focused: bool, colour: Color) -> (s: Style)
    ensures
        s == zone_style_spec(t, i as int, here, focused, colour),
{
    let is_here = match here {
        Some(h) => h == i,
        None => false,
    };
    if is_here {
        if focused { theme::amber_bright(t) } else { theme::amber(t) }
    } else if i % 2 == 0 {
        Style::new().fg(colour).bg(theme::bg_val(t))
    } else {
        proof { theme::lemma_dims_safely(colour, 55); }
        Style::new().fg(theme::dim_color(colour, 55)).bg(theme::bg_val(t))
    }
}

/// One row under the keyboard drawing every zone's span, `width` cells
/// wide over a keyboard starting at `lo`; `here` is the zone under the
/// caret. Cell for cell it is [`rule_cell`], in as few spans as the styles
/// allow.
pub fn rule_line(
    t: &ActiveTheme,
    zones: &Vec<ZoneSpan>,
    lo: u8,
    width: usize,
    here: Option<usize>,
    focused: bool,
    colour: Color,
) -> (spans: Vec<Span>)
    ensures
        cells_of(spans@).len() == width,
        forall|c: int|
            0 <= c < width ==> #[trigger] cells_of(spans@)[c] == rule_cell(
                t,
                zones@,
                lo as int,
                width as int,
                here,
                focused,
                colour,
                c,
            ),
        maximal(spans@),
{
    let mut owners: Vec<Option<usize>> = Vec::new();
    let mut c: usize = 0;
    while c < width
        invariant
            c <= width,
            owners@.len() == c,
            forall|k: int|
                0 <= k < c ==> match owner(zones@, lo as int, width as int, k) {
                    Some(i) => 0 <= i < zones.len() && #[trigger] owners@[k] == Some(i as usize),
                    None => owners@[k] is None,
                },
        decreases width - c,
    {
        owners.push(cell_owner(zones, lo, width, c));
        c += 1;
    }
    let mut cells: Vec<(char, Style)> = Vec::new();
    let mut c: usize = 0;
    while c < width
        invariant
            c <= width,
            owners@.len() == width,
            cells@.len() == c,
            forall|k: int|
                0 <= k < width ==> match owner(zones@, lo as int, width as int, k) {
                    Some(i) => 0 <= i < zones.len() && #[trigger] owners@[k] == Some(i as usize),
                    None => owners@[k] is None,
                },
            forall|k: int|
                0 <= k < c ==> #[trigger] cells@[k] == rule_cell(
                    t,
                    zones@,
                    lo as int,
                    width as int,
                    here,
                    focused,
                    colour,
                    k,
                ),
        decreases width - c,
    {
        let cell = match owners[c] {
            None => (' ', theme::bg(t)),
            Some(i) => {
                let starts = c == 0 || !held_by(owners[c - 1], i);
                let stops = c + 1 == width || !held_by(owners[c + 1], i);
                let glyph = if cell_rooted(zones, lo, width, c) {
                    '\u{253C}'
                } else if starts {
                    '\u{251C}'
                } else if stops {
                    '\u{2524}'
                } else {
                    '\u{2500}'
                };
                (glyph, zone_style(t, i, here, focused, colour))
            },
        };
        cells.push(cell);
        c += 1;
    }
    merge_cells(&cells)
}

} // verus!
