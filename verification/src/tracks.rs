//! A track's header: three rows of twelve columns left of its clips — the
//! accent bar and letter with its effects and fader buttons, its mute and
//! solo buttons with the level meter, and a divider.

use vstd::prelude::*;

use crate::style::{bolded, colors, on, Color, Style};
use crate::text::{char_string, repeat_char, repeated, span_views, Span};
use crate::theme::{self, active, btn_style_spec, dim_color_spec, ActiveTheme};

verus! {

/// Columns of the track header.
pub const HEADER_W: usize = 12;

/// Cells of the level meter.
pub const VU_CELLS: usize = 3;

/// The level meter: `filled` cells lit, the rest shaded.
pub open spec fn vu_spec(filled: nat) -> Seq<char> {
    repeated('\u{2588}', filled) + repeated('\u{2591}', (VU_CELLS - filled) as nat)
}

pub fn vu_bar(filled: usize) -> (bar: String)
    requires
        filled <= VU_CELLS,
    ensures
        bar@ == vu_spec(filled as nat),
{
    let mut bar = repeat_char('\u{2588}', filled);
    let rest = repeat_char('\u{2591}', VU_CELLS - filled);
    bar.append(rest.as_str());
    bar
}

/// Which of a track's controls the element cursor is on.
#[derive(Clone, Copy, Debug, PartialEq, Eq, Structural)]
pub enum TrackElement {
    Clip(usize),
    Fx,
    Volume,
    Pan,
    Mute,
    Solo,
}

/// A pattern running on the track, and whether the track has clips of its
/// own playing the same part: two copies of one part sound like a badly
/// tuned instrument, so the row says so.
#[derive(Clone, Copy, Debug, PartialEq, Eq, Structural)]
pub enum PatternMark {
    Idle,
    Playing,
    Doubled,
}

/// What a track header reads of its track.
#[derive(Clone, Copy, Debug, PartialEq, Eq, Structural)]
pub struct HeaderState {
    pub colour: Color,
    /// Where the track is in the list; its letter counts from `A`.
    pub index: usize,
    /// The track cursor is on it.
    pub cursor: bool,
    /// It is selected, so its element cursor has the keys.
    pub selected: bool,
    /// Muted, or silenced by another track's solo.
    pub dimmed: bool,
    /// A send or the master, which have no effects, fader or arm here.
    pub special: bool,
    pub element: TrackElement,
    /// The element under the cursor is held.
    pub element_locked: bool,
    pub has_fx: bool,
    pub armed: bool,
    pub muted: bool,
    pub soloed: bool,
    /// Cells of the level meter lit.
    pub vu_filled: usize,
    pub pattern: PatternMark,
}

/// The accent bar on the left of every row: solid while selected.
pub open spec fn accent_spec(t: &ActiveTheme, h: HeaderState) -> (Seq<char>, Style) {
    (
        if h.selected { seq!['\u{2588}'] } else { seq!['\u{2590}'] },
        if h.cursor || h.selected {
            colors(h.colour, active(t).bg)
        } else {
            colors(dim_color_spec(h.colour, if h.dimmed { 15 } else { 30 }), active(t).bg)
        },
    )
}

/// The track's letter.
pub open spec fn letter_spec(index: int) -> char {
    (65 + index % 256) as char
}

/// The first row: accent, letter, and unless the track is a send or the
/// master, its effects button, its fader and its arm light.
pub open spec fn top_row_spec(t: &ActiveTheme, h: HeaderState, fader: Seq<char>) -> Seq<(Seq<char>, Style)> {
    let bg = active(t).bg;
    let fx_f = h.selected && h.element == TrackElement::Fx;
    let v_f = h.selected && h.element == TrackElement::Volume;
    seq![
        accent_spec(t, h),
        (seq![letter_spec(h.index as int)], colors(dim_color_spec(h.colour, if h.dimmed { 20 } else { 40 }), bg)),
        (seq![' '], on(bg)),
    ] + if h.special {
        Seq::empty()
    } else {
        seq![
            ("fx"@, btn_style_spec(t, h.has_fx, fx_f, h.colour)),
            (seq![' '], on(bg)),
            (fader, btn_style_spec(t, h.element_locked && v_f, v_f, h.colour)),
            (if h.armed { seq![' ', '\u{25CF}'] } else { seq![' ', ' '] },
                if h.armed { colors(active(t).rec_active, bg) } else { colors(active(t).dim, bg) }),
        ]
    }
}

/// The second row: accent, mute and solo, the level meter, and the pattern
/// mark.
pub open spec fn middle_row_spec(t: &ActiveTheme, h: HeaderState) -> Seq<(Seq<char>, Style)> {
    let bg = active(t).bg;
    let m_f = h.selected && h.element == TrackElement::Mute;
    let s_f = h.selected && h.element == TrackElement::Solo;
    let solo = if h.soloed {
        bolded(colors(Color::Rgb(84, 148, 46), if s_f { theme::lighten_spec(bg, 10) } else { theme::lighten_spec(bg, 6) }))
    } else {
        btn_style_spec(t, false, s_f, h.colour)
    };
    seq![
        accent_spec(t, h),
        (seq![' ', ' '], on(bg)),
        (seq!['m'], btn_style_spec(t, h.muted, m_f, h.colour)),
        (seq![' '], on(bg)),
        (seq!['s'], solo),
        (seq![' '], on(bg)),
        (vu_spec(h.vu_filled as nat), colors(dim_color_spec(h.colour, if h.dimmed { 20 } else { 55 }), theme::lighten_spec(bg, 2))),
    ] + match h.pattern {
        PatternMark::Idle => Seq::empty(),
        PatternMark::Playing => seq![(seq![' ', '\u{25B6}'], colors(dim_color_spec(h.colour, 60), bg))],
        PatternMark::Doubled => seq![(seq![' ', '\u{203C}'], bolded(colors(active(t).amber_bright, bg)))],
    }
}

/// The third row: accent and a divider across the rest of the header.
pub open spec fn bottom_row_spec(t: &ActiveTheme, h: HeaderState) -> Seq<(Seq<char>, Style)> {
    seq![
        accent_spec(t, h),
        (repeated('\u{2500}', (HEADER_W - 1) as nat), colors(active(t).border, active(t).bg)),
    ]
}

fn accent(t: &ActiveTheme, h: &HeaderState) -> (s: Span)
    ensures
        (s.text@, s.style) == accent_spec(t, *h),
{
    let text = char_string(if h.selected { '\u{2588}' } else { '\u{2590}' });
    let style = if h.cursor || h.selected {
        Style::new().fg(h.colour).bg(theme::bg_val(t))
    } else {
        Style::new().fg(theme::dim_color(h.colour, if h.dimmed { 15 } else { 30 })).bg(theme::bg_val(t))
    };
    Span::styled(text, style)
}

/// A track header's three rows. `fader` is the fader's level as the header
/// prints it, three characters.
pub fn header_rows(t: &ActiveTheme, h: &HeaderState, fader: &str) -> (rows: (Vec<Span>, Vec<Span>, Vec<Span>))
    requires
        h.index % 256 <= 190,
        h.vu_filled <= VU_CELLS,
    ensures
        span_views(rows.0@) == top_row_spec(t, *h, fader@),
        span_views(rows.1@) == middle_row_spec(t, *h),
        span_views(rows.2@) == bottom_row_spec(t, *h),
{
    let bg = theme::bg_val(t);
    let tc = h.colour;

    let mut top: Vec<Span> = Vec::new();
    top.push(accent(t, h));
    let letter_code = 65u8 + (h.index % 256) as u8;
    let letter = letter_code as char;
    assert(letter == letter_spec(h.index as int));
    top.push(Span::styled(
        char_string(letter),
        Style::new().fg(theme::dim_color(tc, if h.dimmed { 20 } else { 40 })).bg(bg),
    ));
    top.push(Span::styled(char_string(' '), theme::bg(t)));
    if !h.special {
        let fx_f = h.selected && h.element == TrackElement::Fx;
        let v_f = h.selected && h.element == TrackElement::Volume;
        top.push(Span::styled(String::from_str("fx"), theme::btn_style(t, h.has_fx, fx_f, tc)));
        top.push(Span::styled(char_string(' '), theme::bg(t)));
        top.push(Span::styled(String::from_str(fader), theme::btn_style(t, h.element_locked && v_f, v_f, tc)));
        let arm_text = if h.armed {
            let mut s = char_string(' ');
            crate::text::push_char(&mut s, '\u{25CF}');
            s
        } else {
            repeat_char(' ', 2)
        };
        let arm_style = if h.armed { Style::new().fg(theme::rec_active_val(t)).bg(bg) } else { theme::dim(t) };
        top.push(Span::styled(arm_text, arm_style));
    }
    assert(span_views(top@) =~~= top_row_spec(t, *h, fader@));

    let m_f = h.selected && h.element == TrackElement::Mute;
    let s_f = h.selected && h.element == TrackElement::Solo;
    let solo = if h.soloed {
        Style::new()
            .fg(theme::solo_active_fg())
            .bg(if s_f { theme::solo_focused_bg(t) } else { theme::solo_active_bg(t) })
            .bold()
    } else {
        theme::btn_style(t, false, s_f, tc)
    };
    let mut middle: Vec<Span> = Vec::new();
    middle.push(accent(t, h));
    middle.push(Span::styled(repeat_char(' ', 2), theme::bg(t)));
    middle.push(Span::styled(char_string('m'), theme::btn_style(t, h.muted, m_f, tc)));
    middle.push(Span::styled(char_string(' '), theme::bg(t)));
    middle.push(Span::styled(char_string('s'), solo));
    middle.push(Span::styled(char_string(' '), theme::bg(t)));
    middle.push(Span::styled(
        vu_bar(h.vu_filled),
        Style::new().fg(theme::dim_color(tc, if h.dimmed { 20 } else { 55 })).bg(theme::piano_black_bg(t)),
    ));
    match h.pattern {
        PatternMark::Idle => {},
        PatternMark::Playing => {
            let mut s = char_string(' ');
            crate::text::push_char(&mut s, '\u{25B6}');
            middle.push(Span::styled(s, Style::new().fg(theme::dim_color(tc, 60)).bg(bg)));
        },
        PatternMark::Doubled => {
            let mut s = char_string(' ');
            crate::text::push_char(&mut s, '\u{203C}');
            middle.push(Span::styled(s, theme::amber_bright(t).bold()));
        },
    }
    assert(span_views(middle@) =~~= middle_row_spec(t, *h));

    let mut bottom: Vec<Span> = Vec::new();
    bottom.push(accent(t, h));
    bottom.push(Span::styled(repeat_char('\u{2500}', HEADER_W - 1), theme::border_style(t)));
    assert(span_views(bottom@) =~~= bottom_row_spec(t, *h));
    (top, middle, bottom)
}

/// How tall a track's row is.
pub const TRACK_H: usize = 3;

/// A track as the list of rows reads it.
#[derive(Clone, Copy, Debug, PartialEq, Eq, Structural)]
pub struct TrackFlags {
    pub muted: bool,
    pub soloed: bool,
}

/// One row of the track list: which track, where it starts, and how it is
/// drawn.
#[derive(Clone, Copy, Debug, PartialEq, Eq, Structural)]
pub struct RowPlan {
    pub index: usize,
    pub y: usize,
    pub cursor: bool,
    pub selected: bool,
    pub dimmed: bool,
}

/// Some track is soloed.
pub open spec fn any_solo(tracks: Seq<TrackFlags>) -> bool {
    exists|i: int| 0 <= i < tracks.len() && #[trigger] tracks[i].soloed
}

/// A track is drawn dim when it is muted, or when another track's solo
/// silences it.
pub open spec fn dimmed_spec(f: TrackFlags, solo_on: bool) -> bool {
    f.muted || (solo_on && !f.soloed)
}

/// How many rows fit: the visible tracks, as many as whole rows fit.
pub open spec fn rows_fitting(visible: int, height: int) -> int {
    let fit = height / TRACK_H as int;
    if visible < fit { visible } else { fit }
}

/// The track list's rows: `visible` tracks from `scroll`, three rows each,
/// stopping before a row that would not fit; the cursor's track (`cursor`,
/// while the list has the keys) marked, selected when `selected`; every
/// track dimmed that is muted or silenced by a solo.
pub open spec fn track_rows_spec(
    tracks: Seq<TrackFlags>,
    scroll: int,
    visible: int,
    height: int,
    cursor: Option<usize>,
    selected: bool,
) -> Seq<RowPlan> {
    Seq::new(
        rows_fitting(visible, height) as nat,
        |vi: int|
            RowPlan {
                index: (scroll + vi) as usize,
                y: (TRACK_H * vi) as usize,
                cursor: cursor == Some((scroll + vi) as usize),
                selected: selected && cursor == Some((scroll + vi) as usize),
                dimmed: dimmed_spec(tracks[scroll + vi], any_solo(tracks)),
            },
    )
}

/// The track list's rows. Each fits the pane, and a row is dim exactly when
/// its track cannot be heard for a reason the row itself shows.
pub fn track_rows(
    tracks: &Vec<TrackFlags>,
    scroll: usize,
    visible: usize,
    height: usize,
    cursor: Option<usize>,
    selected: bool,
) -> (rows: Vec<RowPlan>)
    requires
        scroll + visible <= tracks@.len(),
    ensures
        rows@ == track_rows_spec(tracks@, scroll as int, visible as int, height as int, cursor, selected),
        forall|i: int| 0 <= i < rows@.len() ==> #[trigger] rows@[i].y + TRACK_H <= height,
{
    let mut solo_on = false;
    let mut k: usize = 0;
    while k < tracks.len()
        invariant
            k <= tracks@.len(),
            solo_on == exists|i: int| 0 <= i < k && #[trigger] tracks@[i].soloed,
        decreases tracks@.len() - k,
    {
        if tracks[k].soloed {
            solo_on = true;
        }
        k += 1;
    }
    let fit = height / TRACK_H;
    let count = if visible < fit { visible } else { fit };
    let ghost want = track_rows_spec(tracks@, scroll as int, visible as int, height as int, cursor, selected);
    let mut rows: Vec<RowPlan> = Vec::new();
    let mut vi: usize = 0;
    while vi < count
        invariant
            vi <= count,
            count == rows_fitting(visible as int, height as int),
            count <= visible,
            count * TRACK_H <= height,
            scroll + visible <= tracks.len(),
            solo_on == any_solo(tracks@),
            want == track_rows_spec(tracks@, scroll as int, visible as int, height as int, cursor, selected),
            rows@ =~= want.subrange(0, vi as int),
        decreases count - vi,
    {
        let ai = scroll + vi;
        let here = match cursor {
            Some(c) => c == ai,
            None => false,
        };
        let f = tracks[ai];
        rows.push(RowPlan {
            index: ai,
            y: vi * TRACK_H,
            cursor: here,
            selected: selected && here,
            dimmed: f.muted || (solo_on && !f.soloed),
        });
        vi += 1;
    }
    rows
}

} // verus!
