//! The practice room's drill screen: which keys the keyboard spans, which
//! targets the lane shows, and the keyboard itself with the fingering
//! written on the keys to play and the keys under the player's hands lit
//! green where they were asked for and red where they were not.

use vstd::prelude::*;

use crate::keyboard::{self, black, white_at_spec, white_count};
use crate::style::{bolded, colors, on, Color, Style};
use crate::text::{
    centered, centered_spec, char_string, concatenated, decimal, decimal_spec, left_aligned, left_aligned_spec,
    repeat_char, right_aligned, right_aligned_spec, span_views, Span,
};
use crate::theme::{self, active, ActiveTheme};

verus! {

/// The keys a drill's notes span, padded out to whole octaves with a little
/// air and held to the piano's 88: from the octave at or below two under the
/// lowest note, to the octave above the highest; middle C's two octaves
/// when there are no notes.
pub open spec fn keyboard_range_spec(notes: Seq<u8>) -> (int, int) {
    let lo0 = if notes.len() == 0 { 48 } else { min_of(notes) };
    let hi0 = if notes.len() == 0 { 72 } else { max_of(notes) };
    let lo = ((if lo0 >= 2 { lo0 - 2 } else { 0 }) / 12) * 12;
    let hi = ((hi0 + 13) / 12) * 12;
    (if lo >= 21 { lo } else { 21 }, if hi <= 108 { hi } else { 108 })
}

pub open spec fn min_of(notes: Seq<u8>) -> int
    decreases notes.len(),
{
    if notes.len() <= 1 {
        if notes.len() == 1 { notes[0] as int } else { 0 }
    } else {
        let rest = min_of(notes.drop_last());
        if notes.last() < rest { notes.last() as int } else { rest }
    }
}

pub open spec fn max_of(notes: Seq<u8>) -> int
    decreases notes.len(),
{
    if notes.len() <= 1 {
        if notes.len() == 1 { notes[0] as int } else { 0 }
    } else {
        let rest = max_of(notes.drop_last());
        if notes.last() > rest { notes.last() as int } else { rest }
    }
}

/// No note is below the lowest one counted, nor above the highest.
proof fn lemma_bounds_hold(notes: Seq<u8>, i: int)
    requires
        0 <= i < notes.len(),
    ensures
        min_of(notes) <= notes[i] <= max_of(notes),
    decreases notes.len(),
{
    if notes.len() > 1 && i < notes.len() - 1 {
        lemma_bounds_hold(notes.drop_last(), i);
        assert(notes.drop_last()[i] == notes[i]);
    }
}

/// **The keyboard holds the drill.** Whatever order the notes come in,
/// every note of the drill on the piano's 88 keys lies inside the range,
/// and the range never leaves the piano.
pub proof fn lemma_range_holds_every_note(notes: Seq<u8>)
    ensures
        ({
            let (lo, hi) = keyboard_range_spec(notes);
            &&& 21 <= lo
            &&& hi <= 108
            &&& forall|i: int| 0 <= i < notes.len() && 21 <= #[trigger] notes[i] <= 108 ==> lo <= notes[i] <= hi
        }),
{
    assert forall|i: int| 0 <= i < notes.len() && 21 <= #[trigger] notes[i] <= 108 implies keyboard_range_spec(notes).0
        <= notes[i] <= keyboard_range_spec(notes).1 by {
        lemma_bounds_hold(notes, i);
        let lo0 = min_of(notes);
        let hi0 = max_of(notes);
        let a = if lo0 >= 2 { lo0 - 2 } else { 0 };
        assert((a / 12) * 12 <= a) by (nonlinear_arith) requires a >= 0;
        assert(((hi0 + 13) / 12) * 12 >= hi0) by (nonlinear_arith) requires hi0 >= 0;
    }
}

pub fn keyboard_range(notes: &Vec<u8>) -> (range: (u8, u8))
    ensures
        (range.0 as int, range.1 as int) == keyboard_range_spec(notes@),
        forall|i: int| 0 <= i < notes@.len() && 21 <= #[trigger] notes@[i] <= 108 ==> range.0 <= notes@[i] <= range.1,
{
    proof {
        lemma_range_holds_every_note(notes@);
    }
    let mut lo: u8 = 48;
    let mut hi: u8 = 72;
    if notes.len() > 0 {
        lo = notes[0];
        hi = notes[0];
        let mut i: usize = 1;
        while i < notes.len()
            invariant
                1 <= i <= notes.len(),
                lo == min_of(notes@.subrange(0, i as int)),
                hi == max_of(notes@.subrange(0, i as int)),
            decreases notes.len() - i,
        {
            proof {
                assert(notes@.subrange(0, i as int + 1).drop_last() =~= notes@.subrange(0, i as int));
            }
            if notes[i] < lo {
                lo = notes[i];
            }
            if notes[i] > hi {
                hi = notes[i];
            }
            i += 1;
        }
        assert(notes@.subrange(0, notes.len() as int) =~= notes@);
    }
    let low = ((if lo >= 2 { lo - 2 } else { 0 }) / 12) * 12;
    let high: u16 = ((hi as u16 + 13) / 12) * 12;
    (if low >= 21 { low } else { 21 }, if high <= 108 { high as u8 } else { 108 })
}

/// The window of targets the lane shows: three behind the one in focus and
/// up to sixteen in all.
pub open spec fn lane_window_spec(focus: int, len: int) -> (int, int) {
    let lo = if focus >= 3 { focus - 3 } else { 0 };
    (lo, if lo + 16 <= len { lo + 16 } else { len })
}

pub fn lane_window(focus: usize, len: usize) -> (w: (usize, usize))
    requires
        focus < usize::MAX - 16,
    ensures
        (w.0 as int, w.1 as int) == lane_window_spec(focus as int, len as int),
{
    let lo = if focus >= 3 { focus - 3 } else { 0 };
    (lo, if lo + 16 <= len { lo + 16 } else { len })
}

/// The streak as three dots, filled for each clean repetition in a row.
pub open spec fn streak_spec(streak: u32) -> Seq<char> {
    Seq::new(3, |i: int| if i < streak { '\u{25cf}' } else { '\u{25cb}' })
}

pub fn streak_dots(streak: u32) -> (s: String)
    ensures
        s@ == streak_spec(streak),
{
    let mut s = String::new();
    let mut i: u32 = 0;
    while i < 3
        invariant
            i <= 3,
            s@ =~= streak_spec(streak).subrange(0, i as int),
        decreases 3 - i,
    {
        crate::text::push_char(&mut s, if i < streak { '\u{25cf}' } else { '\u{25cb}' });
        i += 1;
    }
    s
}

/// A key the drill wants down now: its note, the finger written on it (none
/// when zero), and whether the left hand plays it.
#[derive(Clone, Copy, Debug, PartialEq, Eq, Structural)]
pub struct Wanted {
    pub note: u8,
    pub finger: u8,
    pub left: bool,
}

/// What the keyboard reads of the drill.
pub struct DrillKeys {
    /// The keys to play now, in the drill's order.
    pub wanted: Vec<Wanted>,
    /// The keys the player is holding.
    pub down: Vec<u8>,
    /// The notes of targets already hit, which a chord releases slowly.
    pub hit: Vec<u8>,
}

/// One target of the drill as the keyboard reads it: its note, the finger
/// written on it, its hand, the tick it falls on, and how it stands.
pub struct DrillTarget {
    pub note: u8,
    pub finger: u8,
    pub left: bool,
    pub tick: u64,
    pub mark: Mark,
}

/// The tick the keys wanted now fall on: the focus target's, or zero when
/// there is no such target.
pub open spec fn focus_tick(targets: Seq<DrillTarget>, focus: int) -> u64 {
    if 0 <= focus < targets.len() { targets[focus].tick } else { 0 }
}

/// The keys wanted among the first `n` targets: those still to play on the
/// focus tick, in the drill's order.
pub open spec fn wanted_upto(targets: Seq<DrillTarget>, tick: u64, n: int) -> Seq<Wanted>
    decreases n,
{
    if n <= 0 {
        Seq::empty()
    } else {
        let t = targets[n - 1];
        wanted_upto(targets, tick, n - 1) + if t.tick == tick && t.mark is Pending {
            seq![Wanted { note: t.note, finger: t.finger, left: t.left }]
        } else {
            Seq::empty()
        }
    }
}

/// The notes of the targets already hit among the first `n`, in order.
pub open spec fn hits_upto(targets: Seq<DrillTarget>, n: int) -> Seq<u8>
    decreases n,
{
    if n <= 0 {
        Seq::empty()
    } else {
        hits_upto(targets, n - 1) + if targets[n - 1].mark is Hit { seq![targets[n - 1].note] } else { Seq::empty() }
    }
}

/// What the keyboard reads of the drill: the keys wanted now are the
/// targets still to play on the focus target's tick (a chord in wait mode,
/// the nearest pending notes in flow), and a key down that nothing asks for
/// is forgiven when a target on its note was hit.
pub fn drill_keys(targets: &Vec<DrillTarget>, focus: usize, down: Vec<u8>) -> (k: DrillKeys)
    ensures
        k.wanted@ == wanted_upto(targets@, focus_tick(targets@, focus as int), targets@.len() as int),
        k.down@ == down@,
        k.hit@ == hits_upto(targets@, targets@.len() as int),
{
    let tick: u64 = if focus < targets.len() { targets[focus].tick } else { 0 };
    let mut wanted: Vec<Wanted> = Vec::new();
    let mut hit: Vec<u8> = Vec::new();
    let mut i: usize = 0;
    while i < targets.len()
        invariant
            i <= targets.len(),
            tick == focus_tick(targets@, focus as int),
            wanted@ == wanted_upto(targets@, tick, i as int),
            hit@ == hits_upto(targets@, i as int),
        decreases targets.len() - i,
    {
        let t = &targets[i];
        let pending = match t.mark {
            Mark::Pending => true,
            _ => false,
        };
        if t.tick == tick && pending {
            wanted.push(Wanted { note: t.note, finger: t.finger, left: t.left });
        }
        let was_hit = match t.mark {
            Mark::Hit(_) => true,
            _ => false,
        };
        if was_hit {
            hit.push(t.note);
        }
        proof {
            assert(wanted_upto(targets@, tick, i as int + 1) == wanted_upto(targets@, tick, i as int) + if targets@[i as int].tick == tick
                && targets@[i as int].mark is Pending {
                seq![Wanted { note: targets@[i as int].note, finger: targets@[i as int].finger, left: targets@[i as int].left }]
            } else {
                Seq::empty()
            });
        }
        i += 1;
    }
    DrillKeys { wanted, down, hit }
}

/// The first key wanted on this note.
pub open spec fn wanted_on(wanted: Seq<Wanted>, note: u8) -> Option<Wanted>
    decreases wanted.len(),
{
    if wanted.len() == 0 {
        None
    } else {
        match wanted_on(wanted.drop_last(), note) {
            Some(w) => Some(w),
            None => if wanted.last().note == note { Some(wanted.last()) } else { None },
        }
    }
}

/// The colour of a key and the finger written on it: green for a wanted key
/// that is down, amber (blue for the left hand) with the finger for one that
/// is not yet, red for a key down that nothing asked for unless it was a
/// recent hit, and the key's own colour at rest.
pub open spec fn key_color_spec(t: &ActiveTheme, k: DrillKeys, note: u8, upper: bool) -> (Color, Option<char>) {
    let down = k.down@.contains(note);
    match wanted_on(k.wanted@, note) {
        Some(w) => if down {
            (Color::Rgb(60, 160, 80), None)
        } else {
            (
                if w.left { Color::Rgb(70, 130, 200) } else { active(t).amber_bright },
                if 1 <= w.finger <= 9 { Some(crate::text::digit_char(w.finger as nat)) } else { None },
            )
        },
        None => if down {
            if k.hit@.contains(note) { (Color::Rgb(60, 160, 80), None) } else { (active(t).rec_active, None) }
        } else {
            (if upper { Color::Rgb(20, 20, 24) } else { theme::lighten_spec(active(t).bg, 5) }, None)
        },
    }
}

fn contains(v: &Vec<u8>, x: u8) -> (b: bool)
    ensures
        b == v@.contains(x),
{
    let mut i: usize = 0;
    while i < v.len()
        invariant
            i <= v.len(),
            forall|j: int| 0 <= j < i ==> v@[j] != x,
        decreases v.len() - i,
    {
        if v[i] == x {
            return true;
        }
        i += 1;
    }
    false
}

fn key_color(t: &ActiveTheme, k: &DrillKeys, note: u8, upper: bool) -> (c: (Color, Option<char>))
    ensures
        c == key_color_spec(t, *k, note, upper),
{
    let down = contains(&k.down, note);
    let mut found: Option<Wanted> = None;
    let mut i: usize = 0;
    while i < k.wanted.len()
        invariant
            i <= k.wanted.len(),
            found == wanted_on(k.wanted@.subrange(0, i as int), note),
        decreases k.wanted.len() - i,
    {
        proof {
            assert(k.wanted@.subrange(0, i as int + 1).drop_last() =~= k.wanted@.subrange(0, i as int));
        }
        if found.is_none() && k.wanted[i].note == note {
            found = Some(k.wanted[i]);
        }
        i += 1;
    }
    assert(k.wanted@.subrange(0, k.wanted.len() as int) =~= k.wanted@);
    match found {
        Some(w) => if down {
            (Color::Rgb(60, 160, 80), None)
        } else {
            let digit = if 1 <= w.finger && w.finger <= 9 { Some(crate::text::digit_char_of(w.finger as u64)) } else { None };
            (if w.left { Color::Rgb(70, 130, 200) } else { theme::amber_bright_val(t) }, digit)
        },
        None => if down {
            if contains(&k.hit, note) { (Color::Rgb(60, 160, 80), None) } else { (theme::rec_active_val(t), None) }
        } else {
            (if upper { Color::Rgb(20, 20, 24) } else { theme::piano_white_bg(t) }, None)
        },
    }
}

/// Whether a black key sits on the right half of white key `w`'s cell.
pub open spec fn black_after(w: int, hi: int) -> bool {
    let pc = w % 12;
    w + 1 <= hi && black(w + 1) && (pc == 0 || pc == 2 || pc == 4 || pc == 5 || pc == 7 || pc == 9 || pc == 11) && !(pc == 4 || pc == 11)
}

/// How many white keys the band draws: as many as two-cell keys fit beside
/// the margins, and no more than the range holds.
pub open spec fn drawn_spec(lo: int, hi: int, width: int) -> int {
    let usable = if width >= 4 { width - 4 } else { 0 };
    let total: int = white_count(lo, hi) as int + 1;
    let shown: int = if usable / 2 <= total { usable / 2 } else { total };
    let present = white_count(lo, hi + 1) as int;
    if shown <= present { shown } else { present }
}

/// What one white key adds to row `row` of the band: the black key above it
/// on the upper rows when there is one (with its finger on the middle row),
/// and the white key's body with its finger on the bottom row.
pub open spec fn key_spans_spec(t: &ActiveTheme, k: DrillKeys, w: int, hi: int, row: int) -> Seq<(Seq<char>, Style)> {
    let (wc, wdigit) = key_color_spec(t, k, w as u8, false);
    if row == 3 {
        seq![(seq![' ', ' '], on(wc))]
    } else if row == 4 {
        seq![(match wdigit { Some(d) => seq![d, ' '], None => seq![' ', ' '] },
            Style { fg: Some(Color::Rgb(10, 10, 10)), bg: Some(wc), bold: true, underlined: false, crossed_out: false })]
    } else if black_after(w, hi) {
        let (bc, bdigit) = key_color_spec(t, k, (w + 1) as u8, true);
        seq![
            (seq![' '], on(wc)),
            (match (if row == 1 { bdigit } else { None }) { Some(d) => seq![d], None => seq![' '] },
                Style { fg: Some(Color::Rgb(230, 230, 230)), bg: Some(bc), bold: true, underlined: false, crossed_out: false }),
        ]
    } else {
        seq![(seq![' ', ' '], on(wc))]
    }
}

/// Row `row` of the band with its first `n` white keys drawn.
pub open spec fn band_row_spec(t: &ActiveTheme, k: DrillKeys, lo: int, hi: int, row: int, n: int) -> Seq<(Seq<char>, Style)>
    decreases n,
{
    if n <= 0 {
        seq![(seq![' ', ' '], colors_dim(t))]
    } else {
        band_row_spec(t, k, lo, hi, row, n - 1) + key_spans_spec(t, k, white_at_spec(lo, n - 1), hi, row)
    }
}

pub open spec fn colors_dim(t: &ActiveTheme) -> Style {
    crate::style::colors(active(t).dim, active(t).bg)
}

fn key_spans(t: &ActiveTheme, k: &DrillKeys, w: u8, hi: u8, row: usize) -> (spans: Vec<Span>)
    requires
        w < 127,
        row < 5,
    ensures
        span_views(spans@) == key_spans_spec(t, *k, w as int, hi as int, row as int),
{
    let (wc, wdigit) = key_color(t, k, w, false);
    let mut spans: Vec<Span> = Vec::new();
    if row == 3 {
        spans.push(Span::styled(repeat_char(' ', 2), Style::new().bg(wc)));
    } else if row == 4 {
        let text = match wdigit {
            Some(d) => {
                let mut s = char_string(d);
                crate::text::push_char(&mut s, ' ');
                s
            },
            None => repeat_char(' ', 2),
        };
        spans.push(Span::styled(text, Style::new().fg(Color::Rgb(10, 10, 10)).bg(wc).bold()));
    } else {
        let pc = w % 12;
        let has_black = w + 1 <= hi && keyboard::is_black(w + 1)
            && (pc == 0 || pc == 2 || pc == 4 || pc == 5 || pc == 7 || pc == 9 || pc == 11) && !(pc == 4 || pc == 11);
        if has_black {
            let (bc, bdigit) = key_color(t, k, w + 1, true);
            spans.push(Span::styled(char_string(' '), Style::new().bg(wc)));
            let digit = if row == 1 { bdigit } else { None };
            let text = match digit {
                Some(d) => char_string(d),
                None => char_string(' '),
            };
            spans.push(Span::styled(text, Style::new().fg(Color::Rgb(230, 230, 230)).bg(bc).bold()));
        } else {
            spans.push(Span::styled(repeat_char(' ', 2), Style::new().bg(wc)));
        }
    }
    assert(span_views(spans@) =~~= key_spans_spec(t, *k, w as int, hi as int, row as int));
    spans
}

/// The keyboard band: five rows, the upper three carrying the black keys and
/// the lower two the white, from `lo` across as many white keys as fit.
pub fn keyboard_band(t: &ActiveTheme, lo: u8, hi: u8, width: usize, k: &DrillKeys) -> (rows: Vec<Vec<Span>>)
    requires
        hi < 127,
    ensures
        rows.len() == 5,
        forall|r: int| 0 <= r < 5 ==> span_views(#[trigger] rows@[r]@)
            == band_row_spec(t, *k, lo as int, hi as int, r, drawn_spec(lo as int, hi as int, width as int)),
{
    let usable = if width >= 4 { width - 4 } else { 0 };
    let total = keyboard::white_index(lo, hi) + 1;
    let shown = if usable / 2 <= total { usable / 2 } else { total };
    let present = if lo <= hi {
        keyboard::white_index(lo, hi) + if keyboard::is_black(hi) { 0 } else { 1 }
    } else {
        0
    };
    let drawn = if shown <= present { shown } else { present };
    proof {
        if lo <= hi {
            assert(white_count(lo as int, hi as int + 1) == white_count(lo as int, hi as int) + if black(hi as int) { 0nat } else { 1nat });
        } else {
            assert(white_count(lo as int, hi as int + 1) == 0);
        }
        assert(drawn == drawn_spec(lo as int, hi as int, width as int));
    }
    let mut rows: Vec<Vec<Span>> = Vec::new();
    let mut r: usize = 0;
    while r < 5
        invariant
            r <= 5,
            hi < 127,
            drawn == drawn_spec(lo as int, hi as int, width as int),
            rows.len() == r,
            forall|q: int| 0 <= q < r ==> span_views(#[trigger] rows@[q]@)
                == band_row_spec(t, *k, lo as int, hi as int, q, drawn as int),
        decreases 5 - r,
    {
        let mut row: Vec<Span> = Vec::new();
        row.push(Span::styled(repeat_char(' ', 2), theme::dim(t)));
        assert(span_views(row@) =~~= band_row_spec(t, *k, lo as int, hi as int, r as int, 0));
        let mut i: usize = 0;
        while i < drawn
            invariant
                i <= drawn,
                drawn == drawn_spec(lo as int, hi as int, width as int),
                r < 5,
                hi < 127,
                span_views(row@) == band_row_spec(t, *k, lo as int, hi as int, r as int, i as int),
            decreases drawn - i,
        {
            let w = keyboard::white_at(lo, i);
            proof {
                if lo > hi {
                    assert(white_count(lo as int, hi as int + 1) == 0);
                }
                keyboard::lemma_white_at_within(lo as int, hi as int, i as int);
            }
            let mut more = key_spans(t, k, w, hi, r);
            let ghost (a, b) = (row@, more@);
            row.append(&mut more);
            proof {
                assert(span_views(a + b) =~= span_views(a) + span_views(b));
            }
            i += 1;
        }
        let ghost before = rows@;
        rows.push(row);
        proof {
            assert forall|q: int| 0 <= q < r + 1 implies span_views(#[trigger] rows@[q]@)
                == band_row_spec(t, *k, lo as int, hi as int, q, drawn as int) by {
                if q < r {
                    assert(rows@[q] == before[q]);
                }
            }
        }
        r += 1;
    }
    rows
}

/// Which target the lane centres on: the wait cursor in wait mode, the
/// first target still pending in flow; the last target when there is no
/// other answer.
pub open spec fn lane_focus_spec(wait: bool, cursor: int, pending: Seq<bool>) -> int {
    let last = if pending.len() >= 1 { pending.len() - 1 } else { 0 };
    if wait {
        if cursor <= last { cursor } else { last }
    } else {
        match first_pending(pending, 0) {
            Some(i) => i,
            None => last,
        }
    }
}

/// The first pending target from `k` on.
pub open spec fn first_pending(pending: Seq<bool>, k: int) -> Option<int>
    decreases pending.len() - k,
{
    if k < 0 || k >= pending.len() {
        None
    } else if pending[k] {
        Some(k)
    } else {
        first_pending(pending, k + 1)
    }
}

/// Which target the lane centres on; `pending` says, target by target,
/// whether it is still to be played.
pub fn lane_focus(wait: bool, cursor: usize, pending: &Vec<bool>) -> (focus: usize)
    ensures
        focus == lane_focus_spec(wait, cursor as int, pending@),
{
    let last = if pending.len() >= 1 { pending.len() - 1 } else { 0 };
    if wait {
        return if cursor <= last { cursor } else { last };
    }
    let mut k: usize = 0;
    while k < pending.len()
        invariant
            k <= pending.len(),
            !wait,
            last == (if pending.len() >= 1 { pending.len() - 1 } else { 0 }),
            first_pending(pending@, 0) == first_pending(pending@, k as int),
        decreases pending.len() - k,
    {
        if pending[k] {
            assert(first_pending(pending@, k as int) == Some(k as int));
            return k;
        }
        k += 1;
    }
    last
}

/// How a target in the lane stands: played, with the colour its timing
/// earned; missed; or still to play.
#[derive(Clone, Copy, Debug, PartialEq, Eq, Structural)]
pub enum Mark {
    Hit(Color),
    Missed,
    Pending,
}

/// One target as the lane shows it.
pub struct LaneTarget {
    /// The note's name, such as `C4`.
    pub name: String,
    /// The finger to play it with; none when zero.
    pub finger: u8,
    pub left: bool,
    pub mark: Mark,
}

/// The colour left-hand targets still to play are written in.
pub open spec fn left_hand() -> Color {
    Color::Rgb(120, 170, 220)
}

/// How a target is written: in its verdict's colour once played, red once
/// missed; still to play, bright, bold and underlined where the lane is
/// focused, blue for the left hand, plain for the right.
pub open spec fn lane_style_spec(t: &ActiveTheme, m: Mark, here: bool, left: bool) -> Style {
    match m {
        Mark::Hit(c) => Style { fg: Some(c), ..Style::plain() },
        Mark::Missed => Style { fg: Some(active(t).rec_active), ..Style::plain() },
        Mark::Pending => if here {
            Style { underlined: true, ..bolded(colors(active(t).amber_bright, active(t).bg)) }
        } else if left {
            Style { fg: Some(left_hand()), ..Style::plain() }
        } else {
            colors(active(t).normal, active(t).bg)
        },
    }
}

/// The finger written over a target: its number, or a dot for none.
pub open spec fn finger_text(f: u8) -> Seq<char> {
    if f > 0 { decimal_spec(f as nat) } else { seq!['\u{00b7}'] }
}

/// How many targets the lane draws from `lo`.
pub open spec fn lane_count(focus: int, len: int) -> int {
    let (lo, hi) = lane_window_spec(focus, len);
    if hi > lo { hi - lo } else { 0 }
}

/// The lane's two rows: fingers above and note names below, each target
/// centred in five columns, after a two-column margin.
pub open spec fn lane_rows_spec(t: &ActiveTheme, targets: Seq<LaneTarget>, focus: int) -> (
    Seq<(Seq<char>, Style)>,
    Seq<(Seq<char>, Style)>,
) {
    let lo = lane_window_spec(focus, targets.len() as int).0;
    let n = lane_count(focus, targets.len() as int);
    let lead = seq![(seq![' ', ' '], colors(active(t).dim, active(t).bg))];
    let style = |k: int| lane_style_spec(t, targets[lo + k].mark, lo + k == focus, targets[lo + k].left);
    (
        lead + Seq::new(n as nat, |k: int| (centered_spec(finger_text(targets[lo + k].finger), 5), style(k))),
        lead + Seq::new(n as nat, |k: int| (centered_spec(targets[lo + k].name@, 5), style(k))),
    )
}

fn lane_style(t: &ActiveTheme, m: Mark, here: bool, left: bool) -> (s: Style)
    ensures
        s == lane_style_spec(t, m, here, left),
{
    match m {
        Mark::Hit(c) => Style::new().fg(c),
        Mark::Missed => Style::new().fg(theme::rec_active_val(t)),
        Mark::Pending => if here {
            Style { underlined: true, ..theme::amber_bright(t).bold() }
        } else if left {
            Style::new().fg(Color::Rgb(120, 170, 220))
        } else {
            theme::normal(t)
        },
    }
}

/// The target lane: what to play above, how it was played below, from three
/// targets behind the one in focus and sixteen at most.
pub fn target_lane(t: &ActiveTheme, targets: &Vec<LaneTarget>, focus: usize) -> (rows: (Vec<Span>, Vec<Span>))
    requires
        focus < usize::MAX - 16,
    ensures
        span_views(rows.0@) == lane_rows_spec(t, targets@, focus as int).0,
        span_views(rows.1@) == lane_rows_spec(t, targets@, focus as int).1,
{
    proof { reveal_strlit("  "); reveal_strlit("\u{00b7}"); }
    assert("  "@ =~= seq![' ', ' ']);
    assert("\u{00b7}"@ =~= seq!['\u{00b7}']);
    let ghost want = lane_rows_spec(t, targets@, focus as int);
    let (lo, hi) = lane_window(focus, targets.len());
    let mut fingers: Vec<Span> = vec![Span::styled(String::from_str("  "), theme::dim(t))];
    let mut names: Vec<Span> = vec![Span::styled(String::from_str("  "), theme::dim(t))];
    let mut i = lo;
    while i < hi
        invariant
            (lo as int, hi as int) == lane_window_spec(focus as int, targets@.len() as int),
            want == lane_rows_spec(t, targets@, focus as int),
            hi <= targets@.len(),
            lo <= i <= hi || (hi < lo && i == lo),
            fingers@.len() == 1 + (i - lo),
            names@.len() == 1 + (i - lo),
            span_views(fingers@) =~= want.0.subrange(0, 1 + (i - lo)),
            span_views(names@) =~= want.1.subrange(0, 1 + (i - lo)),
            want.0.len() == 1 + lane_count(focus as int, targets@.len() as int),
            want.1.len() == 1 + lane_count(focus as int, targets@.len() as int),
        decreases hi - i,
    {
        let target = &targets[i];
        let style = lane_style(t, target.mark, i == focus, target.left);
        let finger = if target.finger > 0 { decimal(target.finger as u64) } else { String::from_str("\u{00b7}") };
        proof { reveal_strlit("\u{00b7}"); }
        assert("\u{00b7}"@ =~= seq!['\u{00b7}']);
        assert(finger@ == finger_text(target.finger));
        assert(style == lane_style_spec(t, targets@[lo + (i - lo)].mark, lo + (i - lo) == focus, targets@[lo + (i - lo)].left));
        assert(want.0[1 + (i - lo)] == (centered_spec(finger_text(target.finger), 5), style));
        assert(want.1[1 + (i - lo)] == (centered_spec(target.name@, 5), style));
        let ghost (f0, n0) = (fingers@, names@);
        fingers.push(Span::styled(centered(finger.as_str(), 5), style));
        names.push(Span::styled(centered(target.name.as_str(), 5), style));
        proof {
            assert(span_views(fingers@) =~= span_views(f0).push((centered_spec(finger_text(target.finger), 5), style)));
            assert(span_views(names@) =~= span_views(n0).push((centered_spec(target.name@, 5), style)));
        }
        i += 1;
    }
    proof {
        assert(want.0.subrange(0, want.0.len() as int) =~= want.0);
        assert(want.1.subrange(0, want.1.len() as int) =~= want.1);
    }
    (fingers, names)
}

/// A drill's header as its parts come: the exercise, the tempo it started
/// at, the judging mode and the click by name, the repetition, the streak,
/// and the coaching line for the family it belongs to.
pub struct RunHeader {
    pub title: String,
    pub bpm: u64,
    pub mode: String,
    pub click: String,
    pub rep: u64,
    pub streak: u32,
    pub coach: String,
}

/// The header's two lines: the exercise in bright bold and the numbers after
/// it in amber, then the coaching line.
pub open spec fn run_header_spec(t: &ActiveTheme, h: RunHeader) -> Seq<Seq<(Seq<char>, Style)>> {
    let numbers = "\u{00b7} \u{2669}="@ + decimal_spec(h.bpm as nat) + " \u{00b7} "@ + h.mode@ + " \u{00b7} click "@
        + h.click@ + " \u{00b7} rep "@ + decimal_spec(h.rep as nat) + " \u{00b7} "@ + streak_spec(h.streak);
    seq![
        seq![
            ("  "@ + h.title@ + " "@, bolded(colors(active(t).amber_bright, active(t).bg))),
            (numbers, colors(active(t).amber, active(t).bg)),
        ],
        seq![("  "@ + h.coach@, colors(active(t).dim, active(t).bg))],
    ]
}

pub fn run_header(t: &ActiveTheme, h: &RunHeader) -> (lines: Vec<Vec<Span>>)
    ensures
        lines@.len() == 2,
        span_views(lines@[0]@) == run_header_spec(t, *h)[0],
        span_views(lines@[1]@) == run_header_spec(t, *h)[1],
{
    let ghost want = run_header_spec(t, *h);
    let title = concatenated("  ", h.title.as_str());
    let title = concatenated(title.as_str(), " ");
    let s = concatenated("\u{00b7} \u{2669}=", decimal(h.bpm).as_str());
    let s = concatenated(s.as_str(), " \u{00b7} ");
    let s = concatenated(s.as_str(), h.mode.as_str());
    let s = concatenated(s.as_str(), " \u{00b7} click ");
    let s = concatenated(s.as_str(), h.click.as_str());
    let s = concatenated(s.as_str(), " \u{00b7} rep ");
    let s = concatenated(s.as_str(), decimal(h.rep).as_str());
    let s = concatenated(s.as_str(), " \u{00b7} ");
    let s = concatenated(s.as_str(), streak_dots(h.streak).as_str());
    let first = vec![
        Span::styled(title, theme::amber_bright(t).bold()),
        Span::styled(s, theme::amber(t)),
    ];
    let second = vec![Span::styled(concatenated("  ", h.coach.as_str()), theme::dim(t))];
    assert(span_views(first@) =~= want[0]);
    assert(span_views(second@) =~= want[1]);
    vec![first, second]
}

/// The drill's keys, on its last line.
pub open spec fn run_keys_text() -> Seq<char> {
    "  enter/esc \u{2014} stop \u{00b7} [ ] tempo \u{00b7} w mode \u{00b7} c click \u{00b7} < > key"@
}

pub fn run_keys(t: &ActiveTheme) -> (spans: Vec<Span>)
    ensures
        span_views(spans@) == seq![(run_keys_text(), colors(active(t).dim, active(t).bg))],
{
    let spans = vec![Span::styled(
        String::from_str("  enter/esc \u{2014} stop \u{00b7} [ ] tempo \u{00b7} w mode \u{00b7} c click \u{00b7} < > key"),
        theme::dim(t),
    )];
    assert(span_views(spans@) =~= seq![(run_keys_text(), colors(active(t).dim, active(t).bg))]);
    spans
}

/// One drill family on the list: its level, its title, and the best tempo
/// played clean on it (zero for none yet).
pub struct FamilyRow {
    pub level: u64,
    pub title: String,
    pub best: u64,
}

/// The settings the selected drill will start with: the key, where the
/// family takes one, the hands, where it is played with either, the tempo,
/// the judging mode and the click by name, and its coaching line.
pub struct DrillChoice {
    pub key: Option<String>,
    pub hands: Option<String>,
    pub bpm: u64,
    pub mode: String,
    pub click: String,
    pub coach: String,
}

/// A family's row: the caret, the level, the title in twenty-eight columns
/// and the best tempo right-aligned in eight, or a dash.
pub open spec fn family_row_spec(t: &ActiveTheme, f: FamilyRow, here: bool) -> Seq<(Seq<char>, Style)> {
    let style = if here {
        bolded(colors(active(t).amber_bright, active(t).bg))
    } else {
        colors(active(t).normal, active(t).bg)
    };
    let best = if f.best > 0 { "\u{2669}="@ + decimal_spec(f.best as nat) } else { "\u{2014}"@ };
    seq![
        (if here { " \u{25B6} "@ } else { "   "@ }, style),
        ("L"@ + decimal_spec(f.level as nat) + " "@, colors(active(t).dim, active(t).bg)),
        (left_aligned_spec(f.title@, 28), style),
        (right_aligned_spec(best, 8), if f.best > 0 {
            colors(active(t).amber, active(t).bg)
        } else {
            colors(active(t).dim, active(t).bg)
        }),
    ]
}

/// The line of settings under the list.
pub open spec fn choice_spec(t: &ActiveTheme, c: DrillChoice) -> Seq<(Seq<char>, Style)> {
    let amber = colors(active(t).amber, active(t).bg);
    let key = match c.key {
        Some(k) => seq![("key "@ + k@ + " \u{00b7} "@, amber)],
        None => Seq::empty(),
    };
    let hands = match c.hands {
        Some(h) => seq![(h@ + " \u{00b7} "@, amber)],
        None => Seq::empty(),
    };
    seq![("   "@, colors(active(t).dim, active(t).bg))] + key + hands + seq![(
        "\u{2669}="@ + decimal_spec(c.bpm as nat) + " \u{00b7} "@ + c.mode@ + " \u{00b7} click "@ + c.click@,
        amber,
    )]
}

/// The drill list: a heading, one row per family with the one under the
/// cursor marked, the settings the selected drill starts with, its
/// coaching line, and the keys — cut to the height of the pane.
pub open spec fn browse_spec(t: &ActiveTheme, families: Seq<FamilyRow>, cursor: int, c: DrillChoice, height: int) -> Seq<
    Seq<(Seq<char>, Style)>,
> {
    let all = browse_all(t, families, cursor, c);
    if height < all.len() { all.subrange(0, height) } else { all }
}

/// Every line of the drill list, before it is cut to the pane.
pub open spec fn browse_all(t: &ActiveTheme, families: Seq<FamilyRow>, cursor: int, c: DrillChoice) -> Seq<
    Seq<(Seq<char>, Style)>,
> {
    let dim = colors(active(t).dim, active(t).bg);
    seq![
        seq![
            ("  fingers "@, bolded(colors(active(t).amber_bright, active(t).bg))),
            ("\u{00b7} technique drills, judged from your playing"@, dim),
        ],
        Seq::empty(),
    ] + Seq::new(families.len(), |i: int| family_row_spec(t, families[i], i == cursor)) + seq![
        Seq::empty(),
        choice_spec(t, c),
        seq![("   "@ + c.coach@, dim)],
        Seq::empty(),
        seq![("   j/k drill \u{00b7} < > key \u{00b7} h hands \u{00b7} w wait/flow \u{00b7} c click \u{00b7} [ ] tempo"@, dim)],
        seq![("   enter \u{2014} start \u{00b7} esc \u{2014} leave \u{00b7} your controller sounds the selected track"@, dim)],
    ]
}

fn family_row(t: &ActiveTheme, f: &FamilyRow, here: bool) -> (spans: Vec<Span>)
    ensures
        span_views(spans@) == family_row_spec(t, *f, here),
{
    let style = if here { theme::amber_bright(t).bold() } else { theme::normal(t) };
    let best = if f.best > 0 {
        concatenated("\u{2669}=", decimal(f.best).as_str())
    } else {
        String::from_str("\u{2014}")
    };
    let level = concatenated("L", decimal(f.level).as_str());
    let spans = vec![
        Span::styled(String::from_str(if here { " \u{25B6} " } else { "   " }), style),
        Span::styled(concatenated(level.as_str(), " "), theme::dim(t)),
        Span::styled(left_aligned(f.title.as_str(), 28), style),
        Span::styled(right_aligned(best.as_str(), 8), if f.best > 0 { theme::amber(t) } else { theme::dim(t) }),
    ];
    assert(span_views(spans@) =~= family_row_spec(t, *f, here));
    spans
}

fn choice_line(t: &ActiveTheme, c: &DrillChoice) -> (spans: Vec<Span>)
    ensures
        span_views(spans@) == choice_spec(t, *c),
{
    let mut spans: Vec<Span> = vec![Span::styled(String::from_str("   "), theme::dim(t))];
    let ghost lead = span_views(spans@);
    match &c.key {
        Some(k) => {
            let s = concatenated("key ", k.as_str());
            spans.push(Span::styled(concatenated(s.as_str(), " \u{00b7} "), theme::amber(t)));
        },
        None => {},
    }
    let ghost with_key = span_views(spans@);
    match &c.hands {
        Some(h) => {
            spans.push(Span::styled(concatenated(h.as_str(), " \u{00b7} "), theme::amber(t)));
        },
        None => {},
    }
    let s = concatenated("\u{2669}=", decimal(c.bpm).as_str());
    let s = concatenated(s.as_str(), " \u{00b7} ");
    let s = concatenated(s.as_str(), c.mode.as_str());
    let s = concatenated(s.as_str(), " \u{00b7} click ");
    let s = concatenated(s.as_str(), c.click.as_str());
    spans.push(Span::styled(s, theme::amber(t)));
    assert(span_views(spans@) =~= choice_spec(t, *c));
    spans
}

/// The drill list, for a pane `height` rows tall.
pub fn browse_lines(t: &ActiveTheme, families: &Vec<FamilyRow>, cursor: usize, c: &DrillChoice, height: usize) -> (lines: Vec<
    Vec<Span>,
>)
    ensures
        lines@.len() == browse_spec(t, families@, cursor as int, *c, height as int).len(),
        forall|i: int|
            0 <= i < lines@.len() ==> span_views(#[trigger] lines@[i]@) == browse_spec(
                t,
                families@,
                cursor as int,
                *c,
                height as int,
            )[i],
{
    let ghost want = browse_all(t, families@, cursor as int, *c);
    let mut lines: Vec<Vec<Span>> = Vec::new();
    lines.push(vec![
        Span::styled(String::from_str("  fingers "), theme::amber_bright(t).bold()),
        Span::styled(String::from_str("\u{00b7} technique drills, judged from your playing"), theme::dim(t)),
    ]);
    lines.push(Vec::new());
    let n = families.len();
    assert(want.len() == n + 8);
    assert(span_views(lines@[0]@) =~= want[0]);
    assert(span_views(lines@[1]@) =~= want[1]);
    let mut i: usize = 0;
    while i < n
        invariant
            n == families@.len(),
            i <= n,
            want == browse_all(t, families@, cursor as int, *c),
            want.len() == n + 8,
            lines@.len() == 2 + i,
            forall|j: int| 0 <= j < lines@.len() ==> span_views(#[trigger] lines@[j]@) == want[j],
        decreases n - i,
    {
        let row = family_row(t, &families[i], i == cursor);
        assert(want[2 + i] == family_row_spec(t, families@[i as int], i == cursor));
        lines.push(row);
        i += 1;
    }
    lines.push(Vec::new());
    lines.push(choice_line(t, c));
    lines.push(vec![Span::styled(concatenated("   ", c.coach.as_str()), theme::dim(t))]);
    lines.push(Vec::new());
    lines.push(vec![Span::styled(
        String::from_str("   j/k drill \u{00b7} < > key \u{00b7} h hands \u{00b7} w wait/flow \u{00b7} c click \u{00b7} [ ] tempo"),
        theme::dim(t),
    )]);
    lines.push(vec![Span::styled(
        String::from_str("   enter \u{2014} start \u{00b7} esc \u{2014} leave \u{00b7} your controller sounds the selected track"),
        theme::dim(t),
    )]);
    assert forall|j: int| 2 + n <= j < n + 8 implies span_views(#[trigger] lines@[j]@) == want[j] by {
        if j == 2 + n + 2 {
            assert(span_views(lines@[j]@) =~= want[j]);
        } else if j == 2 + n + 3 {
            assert(span_views(lines@[j]@) =~= want[j]);
        }
        assert(span_views(lines@[j]@) =~= want[j]);
    }
    let ghost full = lines@;
    lines.truncate(height);
    assert(forall|j: int| 0 <= j < lines@.len() ==> lines@[j] == full[j]);
    lines
}

} // verus!
