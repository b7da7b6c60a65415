//! The step grid's lines: the header that says what the machine is doing,
//! the strip of lanes that stands in for rows that do not fit, the ruler of
//! step numbers, one row a lane, the coaching line on an empty pattern, the
//! chord readout, and the slots.
//!
//! Everything here reads; what it reads of the pattern is handed in as plain
//! values.

use vstd::prelude::*;

use crate::notes::{slot_letter, slot_letter_spec};
use crate::steps::{Geometry, SeqBand, LABEL_W, LANES};
use crate::style::{bolded, colors, on, Color, Style};
use crate::text::{
    char_count, char_string, concatenated, decimal, decimal_spec, repeat_char, repeated, right_aligned,
    right_aligned_spec, span_views, Span,
};
use crate::theme::{self, active, ActiveTheme};

verus! {

/// How many lanes get a row in a view `height` rows tall: all eight once
/// there is room for them beside the lines that are always drawn (five on a
/// kit, six with a melodic pattern's chord readout, one of them the strip
/// that is dropped when every lane has a row), and else what is left, at
/// least one.
pub open spec fn lane_window_spec(height: int, kit: bool) -> int {
    let fixed = if kit { 5int } else { 6int };
    if height >= LANES + fixed - 1 {
        LANES as int
    } else {
        let left = if height >= fixed { height - fixed } else { 0 };
        if left < 1 { 1 } else if left > LANES { LANES as int } else { left }
    }
}

pub fn lane_window(height: usize, kit: bool) -> (n: usize)
    ensures
        n == lane_window_spec(height as int, kit),
        1 <= n <= LANES,
{
    let fixed: usize = if kit { 5 } else { 6 };
    if height >= LANES + fixed - 1 {
        LANES
    } else {
        let left = if height >= fixed { height - fixed } else { 0 };
        if left < 1 { 1 } else if left > LANES { LANES } else { left }
    }
}

/// A pattern's mode.
#[derive(Clone, Copy, Debug, PartialEq, Eq, Structural)]
pub enum Mode {
    Chromatic,
    Ionian,
    Dorian,
    Phrygian,
    Lydian,
    Mixolydian,
    Aeolian,
    Locrian,
}

/// A mode's name in three characters, for a knob that sits in a row of nine.
pub open spec fn mode_short_spec(mode: Mode) -> Seq<char> {
    match mode {
        Mode::Chromatic => "off"@,
        Mode::Ionian => "ion"@,
        Mode::Dorian => "dor"@,
        Mode::Phrygian => "phr"@,
        Mode::Lydian => "lyd"@,
        Mode::Mixolydian => "mix"@,
        Mode::Aeolian => "aeo"@,
        Mode::Locrian => "loc"@,
    }
}

pub fn mode_short(mode: Mode) -> (s: &'static str)
    ensures
        s@ == mode_short_spec(mode),
{
    match mode {
        Mode::Chromatic => "off",
        Mode::Ionian => "ion",
        Mode::Dorian => "dor",
        Mode::Phrygian => "phr",
        Mode::Lydian => "lyd",
        Mode::Mixolydian => "mix",
        Mode::Aeolian => "aeo",
        Mode::Locrian => "loc",
    }
}

/// The step panel's title: the step under the cursor on a melodic lane, the
/// lane itself on a drum voice, whose steps only say when.
pub open spec fn step_title_spec(pitched: bool, step_cursor: nat, lane_label: Seq<char>) -> Seq<char> {
    if pitched { "step "@ + decimal_spec(step_cursor + 1) } else { "lane "@ + lane_label }
}

pub fn step_title(pitched: bool, step_cursor: u64, lane_label: &str) -> (s: String)
    requires
        step_cursor < u64::MAX,
    ensures
        s@ == step_title_spec(pitched, step_cursor as nat, lane_label@),
{
    if pitched {
        let n = decimal(step_cursor + 1);
        concatenated("step ", n.as_str())
    } else {
        concatenated("lane ", lane_label)
    }
}

/// What to press, for a pattern with nothing on it yet.
pub open spec fn coaching_spec(t: &ActiveTheme, kit: bool) -> Seq<(Seq<char>, Style)> {
    let key = bolded(colors(active(t).amber_bright, active(t).bg));
    let says = colors(active(t).muted, active(t).bg);
    seq![
        (repeated(' ', (LABEL_W + 1) as nat), on(active(t).bg)),
        ("n"@, key),
        (" \u{2014} write a step   "@, says),
        ("j/k"@, key),
        (" \u{2014} "@ + (if kit { "pick a sound"@ } else { "pick a row"@ }) + "   "@, says),
        ("enter"@, key),
        (" \u{2014} edit it   "@, says),
        ("t"@, key),
        (" \u{2014} play"@, says),
    ]
}

pub fn coaching_line(t: &ActiveTheme, kit: bool) -> (spans: Vec<Span>)
    ensures
        span_views(spans@) == coaching_spec(t, kit),
{
    let key = theme::amber_bright(t).bold();
    let says = theme::muted(t);
    let rows = if kit { "pick a sound" } else { "pick a row" };
    let mut spans: Vec<Span> = Vec::new();
    spans.push(Span::styled(repeat_char(' ', LABEL_W + 1), theme::bg(t)));
    spans.push(Span::styled(String::from_str("n"), key));
    spans.push(Span::styled(String::from_str(" \u{2014} write a step   "), says));
    spans.push(Span::styled(String::from_str("j/k"), key));
    let a = concatenated(" \u{2014} ", rows);
    spans.push(Span::styled(concatenated(a.as_str(), "   "), says));
    spans.push(Span::styled(String::from_str("enter"), key));
    spans.push(Span::styled(String::from_str(" \u{2014} edit it   "), says));
    spans.push(Span::styled(String::from_str("t"), key));
    spans.push(Span::styled(String::from_str(" \u{2014} play"), says));
    assert(span_views(spans@) =~~= coaching_spec(t, kit));
    spans
}

/// What the header reads of the sequencer.
pub struct SeqHeader {
    /// The step the light is on, while this slot's pattern is sounding.
    pub playhead: Option<u64>,
    pub steps: u64,
    /// The track's pattern is running.
    pub playing: bool,
    pub selected_slot: u8,
    /// The name of the instrument the sequencer drives.
    pub child: Option<String>,
    pub live_slot: u8,
    /// A queued switch: to which slot, and in how many steps.
    pub countdown: Option<(u8, i64)>,
    pub chained: bool,
    /// A step or slot number half typed.
    pub digits: String,
    pub band: SeqBand,
    pub step_recording: bool,
    /// Clips on the track, which double a running pattern's part.
    pub clips: u64,
}

/// `s` after a count, when the count is not one.
pub open spec fn plural(n: int) -> Seq<char> {
    if n == 1 { Seq::empty() } else { seq!['s'] }
}

/// How the header opens: the step the light is on, or whether the machine is
/// stopped or this pattern muted.
pub open spec fn lead_spec(t: &ActiveTheme, h: SeqHeader) -> Seq<(Seq<char>, Style)> {
    seq![match h.playhead {
        Some(step) => (" \u{25B6} step "@ + decimal_spec((step + 1) as nat) + " of "@ + decimal_spec(h.steps as nat) + seq![' '],
            bolded(colors(active(t).amber_bright, active(t).bg))),
        None => if h.playing {
            (" \u{25A0} stopped \u{2014} t or SPC p plays "@, colors(active(t).normal, active(t).bg))
        } else {
            (" \u{25A0} muted \u{2014} t plays this pattern "@, colors(active(t).muted, active(t).bg))
        },
    }]
}

/// The slot being looked at, the instrument, and the slot sounding when it
/// is another.
pub open spec fn slots_spec(t: &ActiveTheme, h: SeqHeader) -> Seq<(Seq<char>, Style)> {
    let muted = colors(active(t).muted, active(t).bg);
    seq![
        (" slot "@, colors(active(t).dim, active(t).bg)),
        (seq![slot_letter_spec(h.selected_slot), ' '], bolded(colors(active(t).amber, active(t).bg))),
    ] + (match h.child {
        Some(name) => seq![("\u{00B7} "@ + name@ + seq![' '], muted)],
        None => Seq::empty(),
    }) + (if h.playing && h.live_slot != h.selected_slot {
        seq![("(playing "@ + seq![slot_letter_spec(h.live_slot)] + ") "@, muted)]
    } else {
        Seq::empty()
    })
}

/// A queued switch and when it lands, or that the slots are chained.
pub open spec fn queue_spec(t: &ActiveTheme, h: SeqHeader) -> Seq<(Seq<char>, Style)> {
    match h.countdown {
        Some((slot, steps)) => seq![(
            "\u{2192} "@ + seq![slot_letter_spec(slot), ' ']
                + (if steps <= 0 { "next"@ } else { "in "@ + decimal_spec(steps as nat) + " step"@ + plural(steps as int) })
                + seq![' '],
            bolded(colors(active(t).amber_bright, active(t).bg)),
        )],
        None => if h.chained { seq![("chained "@, colors(active(t).muted, active(t).bg))] } else { Seq::empty() },
    }
}

/// A number being typed, step recording, and a running pattern doubled by
/// clips of the same part.
pub open spec fn tail_spec(t: &ActiveTheme, h: SeqHeader) -> Seq<(Seq<char>, Style)> {
    (if h.digits@.len() > 0 {
        seq![((if h.band == SeqBand::Slots { "slot"@ } else { "step"@ }) + seq![' '] + h.digits@ + "_ "@,
            colors(active(t).amber_bright, active(t).bg))]
    } else {
        Seq::empty()
    }) + (if h.step_recording {
        seq![("\u{25CF} rec "@, Style { fg: Some(active(t).rec_active), bg: None, bold: true, underlined: false, crossed_out: false })]
    } else {
        Seq::empty()
    }) + (if h.playing && h.clips > 0 {
        seq![("\u{203C} "@ + decimal_spec(h.clips as nat) + " clip"@ + plural(h.clips as int) + " too "@,
            colors(active(t).amber_bright, active(t).bg))]
    } else {
        Seq::empty()
    })
}

/// The header: whether the machine runs, which slot is being looked at and
/// which one sounds, a queued switch and when it lands, a number being
/// typed, step recording, and a running pattern doubled by clips.
pub open spec fn header_spec(t: &ActiveTheme, h: SeqHeader) -> Seq<(Seq<char>, Style)> {
    lead_spec(t, h) + slots_spec(t, h) + queue_spec(t, h) + tail_spec(t, h)
}

fn lead_spans(t: &ActiveTheme, h: &SeqHeader) -> (spans: Vec<Span>)
    requires
        match h.playhead { Some(step) => step < u64::MAX, None => true },
    ensures
        span_views(spans@) == lead_spec(t, *h),
{
    proof {
        reveal_strlit(" ");
    }
    let mut spans: Vec<Span> = Vec::new();
    match h.playhead {
        Some(step) => {
            let n = decimal(step + 1);
            let of = decimal(h.steps);
            let a = concatenated(" \u{25B6} step ", n.as_str());
            let b = concatenated(a.as_str(), " of ");
            let c = concatenated(b.as_str(), of.as_str());
            spans.push(Span::styled(concatenated(c.as_str(), " "), theme::amber_bright(t).bold()));
        },
        None => if h.playing {
            spans.push(Span::styled(String::from_str(" \u{25A0} stopped \u{2014} t or SPC p plays "), theme::normal(t)));
        } else {
            spans.push(Span::styled(String::from_str(" \u{25A0} muted \u{2014} t plays this pattern "), theme::muted(t)));
        },
    }
    assert(span_views(spans@) =~~= lead_spec(t, *h));
    spans
}

fn slot_spans(t: &ActiveTheme, h: &SeqHeader) -> (spans: Vec<Span>)
    ensures
        span_views(spans@) == slots_spec(t, *h),
{
    proof {
        reveal_strlit(" ");
    }
    let mut spans: Vec<Span> = Vec::new();
    spans.push(Span::styled(String::from_str(" slot "), theme::dim(t)));
    let mut letter = char_string(slot_letter(h.selected_slot));
    crate::text::push_char(&mut letter, ' ');
    spans.push(Span::styled(letter, theme::amber(t).bold()));
    if let Some(name) = &h.child {
        let a = concatenated("\u{00B7} ", name.as_str());
        spans.push(Span::styled(concatenated(a.as_str(), " "), theme::muted(t)));
    }
    if h.playing && h.live_slot != h.selected_slot {
        let mut s = String::from_str("(playing ");
        crate::text::push_char(&mut s, slot_letter(h.live_slot));
        s.append(") ");
        spans.push(Span::styled(s, theme::muted(t)));
    }
    assert(span_views(spans@) =~~= slots_spec(t, *h));
    spans
}

fn queue_spans(t: &ActiveTheme, h: &SeqHeader) -> (spans: Vec<Span>)
    ensures
        span_views(spans@) == queue_spec(t, *h),
{
    let mut spans: Vec<Span> = Vec::new();
    match h.countdown {
        Some((slot, steps)) => {
            let mut s = String::from_str("\u{2192} ");
            crate::text::push_char(&mut s, slot_letter(slot));
            crate::text::push_char(&mut s, ' ');
            if steps <= 0 {
                s.append("next");
            } else {
                s.append("in ");
                let n = decimal(steps as u64);
                s.append(n.as_str());
                s.append(" step");
                if steps != 1 {
                    crate::text::push_char(&mut s, 's');
                }
            }
            crate::text::push_char(&mut s, ' ');
            spans.push(Span::styled(s, theme::amber_bright(t).bold()));
        },
        None => if h.chained {
            spans.push(Span::styled(String::from_str("chained "), theme::muted(t)));
        },
    }
    assert(span_views(spans@) =~~= queue_spec(t, *h));
    spans
}

fn tail_spans(t: &ActiveTheme, h: &SeqHeader) -> (spans: Vec<Span>)
    ensures
        span_views(spans@) == tail_spec(t, *h),
{
    let mut spans: Vec<Span> = Vec::new();
    if char_count(h.digits.as_str()) > 0 {
        let mut s = String::from_str(if h.band == SeqBand::Slots { "slot" } else { "step" });
        crate::text::push_char(&mut s, ' ');
        s.append(h.digits.as_str());
        s.append("_ ");
        spans.push(Span::styled(s, theme::amber_bright(t)));
    }
    if h.step_recording {
        spans.push(Span::styled(String::from_str("\u{25CF} rec "), Style::new().fg(theme::rec_active_val(t)).bold()));
    }
    if h.playing && h.clips > 0 {
        let mut s = String::from_str("\u{203C} ");
        let n = decimal(h.clips);
        s.append(n.as_str());
        s.append(" clip");
        if h.clips != 1 {
            crate::text::push_char(&mut s, 's');
        }
        s.append(" too ");
        spans.push(Span::styled(s, theme::amber_bright(t)));
    }
    assert(span_views(spans@) =~~= tail_spec(t, *h));
    spans
}

/// Spans end to end, as their views are.
proof fn lemma_views_concat(a: Seq<Span>, b: Seq<Span>)
    ensures
        span_views(a + b) == span_views(a) + span_views(b),
{
    assert(span_views(a + b) =~= span_views(a) + span_views(b));
}

pub fn header_line(t: &ActiveTheme, h: &SeqHeader) -> (spans: Vec<Span>)
    requires
        match h.playhead { Some(step) => step < u64::MAX, None => true },
    ensures
        span_views(spans@) == header_spec(t, *h),
{
    let mut spans = lead_spans(t, h);
    let mut more = slot_spans(t, h);
    let ghost (a, b) = (spans@, more@);
    spans.append(&mut more);
    proof { lemma_views_concat(a, b); }
    let mut more = queue_spans(t, h);
    let ghost (a, b) = (spans@, more@);
    spans.append(&mut more);
    proof { lemma_views_concat(a, b); }
    let mut more = tail_spans(t, h);
    let ghost (a, b) = (spans@, more@);
    spans.append(&mut more);
    proof { lemma_views_concat(a, b); }
    spans
}

/// One lane as the strip shows it.
pub struct StripLane {
    pub label: String,
    pub selected: bool,
    pub soloed: bool,
    pub muted: bool,
    /// Not silenced by another lane's solo.
    pub audible: bool,
    /// Has any step on.
    pub used: bool,
}

/// How a lane reads on the strip: the one being written bright, a soloed
/// lane green, a silent one dim, a lane with steps in the track's colour.
pub open spec fn strip_style_spec(t: &ActiveTheme, lane: StripLane, focused: bool, colour: Color) -> Style {
    if lane.selected && focused {
        bolded(colors(active(t).amber_bright, active(t).bg))
    } else if lane.soloed {
        colors(Color::Rgb(84, 148, 46), active(t).bg)
    } else if lane.muted || !lane.audible {
        colors(active(t).dim, active(t).bg)
    } else if lane.used {
        colors(colour, active(t).bg)
    } else {
        colors(active(t).muted, active(t).bg)
    }
}

/// Every lane on one line, bracketed where the cursor is.
pub open spec fn strip_spec(t: &ActiveTheme, kit: bool, focused: bool, colour: Color, lanes: Seq<StripLane>) -> Seq<(Seq<char>, Style)> {
    seq![(if kit { " sound "@ } else { " voice "@ }, colors(active(t).dim, active(t).bg))] + Seq::new(lanes.len(), |i: int| (
        if lanes[i].selected { seq!['['] + lanes[i].label@ + seq![']'] } else { seq![' '] + lanes[i].label@ + seq![' '] },
        strip_style_spec(t, lanes[i], focused, colour),
    ))
}

pub fn lane_strip(t: &ActiveTheme, kit: bool, focused: bool, colour: Color, lanes: &Vec<StripLane>) -> (spans: Vec<Span>)
    ensures
        span_views(spans@) == strip_spec(t, kit, focused, colour, lanes@),
{
    let mut spans: Vec<Span> = Vec::new();
    spans.push(Span::styled(String::from_str(if kit { " sound " } else { " voice " }), theme::dim(t)));
    let ghost head = span_views(spans@);
    let mut i: usize = 0;
    while i < lanes.len()
        invariant
            i <= lanes.len(),
            span_views(spans@) =~~= head + Seq::new(i as nat, |k: int| (
                if lanes@[k].selected { seq!['['] + lanes@[k].label@ + seq![']'] } else { seq![' '] + lanes@[k].label@ + seq![' '] },
                strip_style_spec(t, lanes@[k], focused, colour),
            )),
            head == seq![(if kit { " sound "@ } else { " voice "@ }, colors(active(t).dim, active(t).bg))],
        decreases lanes.len() - i,
    {
        let lane = &lanes[i];
        let style = if lane.selected && focused {
            theme::amber_bright(t).bold()
        } else if lane.soloed {
            Style::new().fg(theme::solo_active_fg()).bg(theme::bg_val(t))
        } else if lane.muted || !lane.audible {
            theme::dim(t)
        } else if lane.used {
            Style::new().fg(colour).bg(theme::bg_val(t))
        } else {
            theme::muted(t)
        };
        let mut text = char_string(if lane.selected { '[' } else { ' ' });
        text.append(lane.label.as_str());
        crate::text::push_char(&mut text, if lane.selected { ']' } else { ' ' });
        let ghost before = span_views(spans@);
        spans.push(Span::styled(text, style));
        proof {
            let f = |k: int| (
                if lanes@[k].selected { seq!['['] + lanes@[k].label@ + seq![']'] } else { seq![' '] + lanes@[k].label@ + seq![' '] },
                strip_style_spec(t, lanes@[k], focused, colour),
            );
            assert(span_views(spans@) =~~= before.push((text@, style)));
            assert(Seq::new(i as nat + 1, f) =~~= Seq::new(i as nat, f).push(f(i as int)));
        }
        i += 1;
    }
    spans
}

/// The chord readout under the step panel: a mark when the step is on, what
/// the step plays, the pattern's mode and key when it has one, and whether
/// the step is accented.
pub open spec fn readout_spec(t: &ActiveTheme, on: bool, readout: Seq<char>, mode: Option<(Seq<char>, Seq<char>)>, accent: bool) -> Seq<(Seq<char>, Style)> {
    seq![
        (right_aligned_spec(if on { seq!['\u{25B8}'] } else { seq![' '] }, (LABEL_W + 3) as nat) + seq![' '], colors(active(t).dim, active(t).bg)),
        (readout, if on { colors(active(t).normal, active(t).bg) } else { colors(active(t).dim, active(t).bg) }),
    ] + (match mode {
        Some((name, tonic)) => seq![("   "@ + name + seq![' '] + tonic, colors(active(t).muted, active(t).bg))],
        None => Seq::empty(),
    }) + (if accent { seq![("  accent"@, colors(active(t).amber_bright, active(t).bg))] } else { Seq::empty() })
}

/// The chord readout. `mode` is the pattern's mode and key, by name, when it
/// is in one.
pub fn readout_line(t: &ActiveTheme, on: bool, readout: &str, mode: Option<(&str, &str)>, accent: bool) -> (spans: Vec<Span>)
    ensures
        span_views(spans@) == readout_spec(t, on, readout@, match mode { Some((a, b)) => Some((a@, b@)), None => None }, accent),
{
    let mut spans: Vec<Span> = Vec::new();
    let mark = char_string(if on { '\u{25B8}' } else { ' ' });
    let mut lead = right_aligned(mark.as_str(), LABEL_W + 3);
    crate::text::push_char(&mut lead, ' ');
    spans.push(Span::styled(lead, theme::dim(t)));
    spans.push(Span::styled(String::from_str(readout), if on { theme::normal(t) } else { theme::dim(t) }));
    if let Some((name, tonic)) = mode {
        let mut s = String::from_str("   ");
        s.append(name);
        crate::text::push_char(&mut s, ' ');
        s.append(tonic);
        spans.push(Span::styled(s, theme::muted(t)));
    }
    if accent {
        spans.push(Span::styled(String::from_str("  accent"), theme::amber_bright(t)));
    }
    assert(span_views(spans@) =~~= readout_spec(t, on, readout@, match mode { Some((a, b)) => Some((a@, b@)), None => None }, accent));
    spans
}

/// What the slots line reads of the sequencer.
pub struct SlotsState {
    /// The slots band has the cursor and the view the keys.
    pub band_on: bool,
    /// The view has the keys.
    pub focused: bool,
    pub colour: Color,
    pub selected: u8,
    pub live: u8,
    pub playing: bool,
    pub queued: Option<u8>,
    /// Which of the slots have anything in them.
    pub used: Vec<bool>,
    /// Where a queued switch lands, by name.
    pub switch: String,
    /// The chain: each slot and how many times it plays.
    pub chain: Vec<(u8, u64)>,
}

/// How slot `i` is drawn, and the mark ahead of its letter.
pub open spec fn slot_cell_spec(t: &ActiveTheme, s: SlotsState, i: int) -> (Seq<char>, Style) {
    let live = i == s.live && s.playing;
    let queued = s.queued == Some(i as u8);
    let used = 0 <= i < s.used@.len() && s.used@[i];
    let base = if live {
        bolded(colors(active(t).amber_bright, active(t).bg))
    } else if queued {
        colors(active(t).amber, active(t).bg)
    } else if used {
        colors(s.colour, active(t).bg)
    } else {
        colors(active(t).dim, active(t).bg)
    };
    let style = if i == s.selected {
        Style { bg: Some(if s.band_on { theme::lighten_spec(active(t).bg, 18) } else { theme::lighten_spec(active(t).bg, 8) }), ..base }
    } else {
        base
    };
    let mark = if live { '\u{25B6}' } else if queued { '\u{00BB}' } else if i == s.selected { '\u{25B8}' } else { ' ' };
    (seq![mark, slot_letter_spec(i as u8)], style)
}

/// A chain entry: the slot's letter, and how many times when more than once.
pub open spec fn chain_entry_spec(entry: (u8, u64)) -> Seq<char> {
    seq![slot_letter_spec(entry.0)] + (if entry.1 > 1 { seq!['\u{00D7}'] + decimal_spec(entry.1 as nat) } else { Seq::empty() }) + seq![' ']
}

/// The eight slots, what is playing and what is queued, where a switch
/// lands, and the chain.
pub open spec fn slots_line_spec(t: &ActiveTheme, s: SlotsState) -> Seq<(Seq<char>, Style)> {
    seq![(right_aligned_spec("slots"@, (LABEL_W + 3) as nat) + seq![' '],
        if s.band_on { bolded(colors(active(t).amber_bright, active(t).bg)) }
        else if s.focused { colors(active(t).muted, active(t).bg) }
        else { colors(active(t).dim, active(t).bg) })]
    + Seq::new(16, |k: int| if k % 2 == 0 { slot_cell_spec(t, s, k / 2) } else { (seq![' '], on(active(t).bg)) })
    + seq![(" on "@ + s.switch@ + seq![' '], colors(active(t).muted, active(t).bg))]
    + (if s.chain@.len() == 0 {
        seq![(" chain \u{2014}"@, colors(active(t).dim, active(t).bg))]
    } else {
        seq![(" chain "@, colors(active(t).dim, active(t).bg))]
            + Seq::new(s.chain@.len(), |k: int| (chain_entry_spec(s.chain@[k]), colors(active(t).normal, active(t).bg)))
    })
}

fn slot_cell(t: &ActiveTheme, s: &SlotsState, i: u8) -> (cell: Span)
    requires
        i < 8,
    ensures
        (cell.text@, cell.style) == slot_cell_spec(t, *s, i as int),
{
    let live = i == s.live && s.playing;
    let queued = match s.queued {
        Some(q) => q == i,
        None => false,
    };
    let used = (i as usize) < s.used.len() && s.used[i as usize];
    let base = if live {
        theme::amber_bright(t).bold()
    } else if queued {
        theme::amber(t)
    } else if used {
        Style::new().fg(s.colour).bg(theme::bg_val(t))
    } else {
        theme::dim(t)
    };
    let style = if i == s.selected {
        base.bg(if s.band_on { theme::col_row_bg(t) } else { theme::col_highlight_bg(t) })
    } else {
        base
    };
    let mark = if live { '\u{25B6}' } else if queued { '\u{00BB}' } else if i == s.selected { '\u{25B8}' } else { ' ' };
    let mut text = char_string(mark);
    crate::text::push_char(&mut text, slot_letter(i));
    Span::styled(text, style)
}

fn chain_entry(entry: (u8, u64)) -> (s: String)
    ensures
        s@ == chain_entry_spec(entry),
{
    let mut s = char_string(slot_letter(entry.0));
    if entry.1 > 1 {
        crate::text::push_char(&mut s, '\u{00D7}');
        let n = decimal(entry.1);
        s.append(n.as_str());
    }
    crate::text::push_char(&mut s, ' ');
    s
}

pub fn slots_line(t: &ActiveTheme, s: &SlotsState) -> (spans: Vec<Span>)
    ensures
        span_views(spans@) == slots_line_spec(t, *s),
{
    let mut spans: Vec<Span> = Vec::new();
    let mut lead = right_aligned("slots", LABEL_W + 3);
    crate::text::push_char(&mut lead, ' ');
    spans.push(Span::styled(
        lead,
        if s.band_on { theme::amber_bright(t).bold() } else if s.focused { theme::muted(t) } else { theme::dim(t) },
    ));
    let ghost head = span_views(spans@);
    assert(head =~~= seq![(right_aligned_spec("slots"@, (LABEL_W + 3) as nat) + seq![' '],
        if s.band_on { bolded(colors(active(t).amber_bright, active(t).bg)) }
        else if s.focused { colors(active(t).muted, active(t).bg) }
        else { colors(active(t).dim, active(t).bg) })]);
    let ghost cells = Seq::new(16, |k: int| if k % 2 == 0 { slot_cell_spec(t, *s, k / 2) } else { (seq![' '], on(active(t).bg)) });
    let mut i: u8 = 0;
    while i < 8
        invariant
            i <= 8,
            span_views(spans@) =~~= head + cells.subrange(0, 2 * i as int),
            cells == Seq::new(16, |k: int| if k % 2 == 0 { slot_cell_spec(t, *s, k / 2) } else { (seq![' '], on(active(t).bg)) }),
        decreases 8 - i,
    {
        let ghost before = span_views(spans@);
        let cell = slot_cell(t, s, i);
        let ghost cv = (cell.text@, cell.style);
        spans.push(cell);
        let gap = Span::styled(char_string(' '), theme::bg(t));
        let ghost gv = (gap.text@, gap.style);
        spans.push(gap);
        proof {
            assert(span_views(spans@) =~~= before.push(cv).push(gv));
            assert(gv == cells[2 * i as int + 1]);
            assert(cells[2 * i as int] == slot_cell_spec(t, *s, i as int));
            assert(cells.subrange(0, 2 * i as int + 2) =~~= cells.subrange(0, 2 * i as int).push(cells[2 * i as int]).push(cells[2 * i as int + 1]));
        }
        i += 1;
    }
    proof {
        assert(cells.subrange(0, 16) =~~= cells);
    }
    let ghost listed = span_views(spans@);
    assert(listed =~~= head + cells);
    let mut on_text = String::from_str(" on ");
    on_text.append(s.switch.as_str());
    crate::text::push_char(&mut on_text, ' ');
    let on_span = Span::styled(on_text, theme::muted(t));
    let ghost onv = (on_span.text@, on_span.style);
    assert(onv == (" on "@ + s.switch@ + seq![' '], colors(active(t).muted, active(t).bg)));
    spans.push(on_span);
    let ghost before_chain = span_views(spans@);
    assert(before_chain =~~= head + cells + seq![onv]);
    if s.chain.len() == 0 {
        spans.push(Span::styled(String::from_str(" chain \u{2014}"), theme::dim(t)));
        assert(span_views(spans@) =~~= before_chain + seq![(" chain \u{2014}"@, colors(active(t).dim, active(t).bg))]);
    } else {
        spans.push(Span::styled(String::from_str(" chain "), theme::dim(t)));
        let ghost chain_head = span_views(spans@);
        let mut k: usize = 0;
        while k < s.chain.len()
            invariant
                k <= s.chain@.len(),
                span_views(spans@) =~~= chain_head + Seq::new(k as nat, |j: int| (chain_entry_spec(s.chain@[j]), colors(active(t).normal, active(t).bg))),
            decreases s.chain.len() - k,
        {
            let ghost before = span_views(spans@);
            let e = Span::styled(chain_entry(s.chain[k]), theme::normal(t));
            let ghost ev = (e.text@, e.style);
            spans.push(e);
            proof {
                assert(span_views(spans@) =~~= before.push(ev));
                let f = |j: int| (chain_entry_spec(s.chain@[j]), colors(active(t).normal, active(t).bg));
                assert(Seq::new(k as nat + 1, f) =~~= Seq::new(k as nat, f).push(f(k as int)));
            }
            k += 1;
        }
        assert(span_views(spans@) =~~= before_chain + (seq![(" chain "@, colors(active(t).dim, active(t).bg))]
            + Seq::new(s.chain@.len(), |j: int| (chain_entry_spec(s.chain@[j]), colors(active(t).normal, active(t).bg)))));
    }
    assert(span_views(spans@) =~~= slots_line_spec(t, *s));
    spans
}

/// The x of the cell of the `k`-th step on the page.
pub open spec fn step_x(g: Geometry, k: int) -> int {
    LABEL_W as int + k * g.cell + k / 4
}

/// The page number over the ruler, `page/pages`, while the pattern pages.
pub open spec fn page_label(g: Geometry) -> Seq<char> {
    let per = if g.count >= 1 { g.count as int } else { 1 };
    decimal_spec((g.first as int / per + 1) as nat) + seq!['/'] + decimal_spec(g.pages as nat)
}

/// A ruler cell before the step numbers: the page number at the left while
/// the pattern pages, the background elsewhere.
pub open spec fn ruler_base(t: &ActiveTheme, g: Geometry, x: int) -> (char, Style) {
    if g.pages > 1 && x < page_label(g).len() {
        (page_label(g)[x], colors(active(t).dim, active(t).bg))
    } else {
        (' ', on(active(t).bg))
    }
}

/// The light: the pattern's step, the theme's brightest on its darkest.
pub open spec fn light_spec(t: &ActiveTheme) -> Style {
    bolded(colors(active(t).bg, Color::Rgb(255, 200, 50)))
}

/// The `k`-th step of the page painted over a ruler cell: the light over
/// its whole cell when the pattern is on it, then its number right-aligned
/// in the cell's solid columns — lit, bright under the cursor, heavier on
/// each beat.
pub open spec fn ruler_step(cell: (char, Style), t: &ActiveTheme, g: Geometry, x: int, k: int, cursor: int, playhead: Option<usize>, grid_on: bool) -> (char, Style) {
    let step = g.first + k;
    let sx = step_x(g, k);
    let lit = playhead == Some(step as usize);
    let style = if lit {
        light_spec(t)
    } else if step == cursor && grid_on {
        bolded(colors(active(t).amber_bright, active(t).bg))
    } else if step % 4 == 0 {
        bolded(colors(active(t).normal, active(t).bg))
    } else {
        colors(active(t).dim, active(t).bg)
    };
    let c1 = if lit && sx <= x < sx + g.cell { (' ', light_spec(t)) } else { cell };
    let w = if g.cell >= 2 { g.cell - 1 } else { 1 };
    let num = right_aligned_spec(decimal_spec((step + 1) as nat), w as nat);
    if sx <= x < sx + num.len() { (num[x - sx], style) } else { c1 }
}

/// The first `n` steps of the page painted over a ruler cell, in order.
pub open spec fn ruler_steps(cell: (char, Style), t: &ActiveTheme, g: Geometry, x: int, n: int, cursor: int, playhead: Option<usize>, grid_on: bool) -> (char, Style)
    decreases n,
{
    if n <= 0 {
        cell
    } else {
        ruler_step(ruler_steps(cell, t, g, x, n - 1, cursor, playhead, grid_on), t, g, x, n - 1, cursor, playhead, grid_on)
    }
}

/// The step numbers over the grid, and the running light in the same column
/// as the lanes under it, `width` cells.
pub open spec fn ruler_spec(t: &ActiveTheme, g: Geometry, width: nat, cursor: int, playhead: Option<usize>, grid_on: bool) -> Seq<(char, Style)> {
    Seq::new(width, |x: int| ruler_steps(ruler_base(t, g, x), t, g, x, g.count as int, cursor, playhead, grid_on))
}

/// A page the ruler and the rows can draw.
pub open spec fn drawable(g: Geometry) -> bool {
    &&& 2 <= g.cell <= 3
    &&& g.first + g.count <= usize::MAX / 8
    &&& g.pages <= usize::MAX / 8
}

fn ruler_cell(t: &ActiveTheme, g: &Geometry, x: usize, cursor: usize, playhead: Option<usize>, grid_on: bool, label: &String) -> (cell: (char, Style))
    requires
        drawable(*g),
        g.pages > 1 ==> label@ == page_label(*g),
    ensures
        cell == ruler_steps(ruler_base(t, *g, x as int), t, *g, x as int, g.count as int, cursor as int, playhead, grid_on),
{
    let mut cell: (char, Style) = if g.pages > 1 && x < char_count(label.as_str()) {
        (label.as_str().get_char(x), theme::dim(t))
    } else {
        (' ', theme::bg(t))
    };
    let ghost base = cell;
    let mut k: usize = 0;
    while k < g.count
        invariant
            k <= g.count,
            drawable(*g),
            cell == ruler_steps(base, t, *g, x as int, k as int, cursor as int, playhead, grid_on),
        decreases g.count - k,
    {
        let step = g.first + k;
        assert(k * g.cell <= (usize::MAX / 8) * 3) by (nonlinear_arith)
            requires
                k <= usize::MAX / 8,
                g.cell <= 3,
        ;
        let sx = LABEL_W + k * g.cell + k / 4;
        let lit = match playhead {
            Some(p) => p == step,
            None => false,
        };
        let style = if lit {
            crate::steps::light(t)
        } else if step == cursor && grid_on {
            theme::amber_bright(t).bold()
        } else if step % 4 == 0 {
            theme::normal(t).bold()
        } else {
            theme::dim(t)
        };
        if lit && sx <= x && x < sx + g.cell {
            cell = (' ', crate::steps::light(t));
        }
        let digits = decimal((step + 1) as u64);
        let num = right_aligned(digits.as_str(), if g.cell >= 2 { g.cell - 1 } else { 1 });
        if sx <= x && x - sx < char_count(num.as_str()) {
            cell = (num.as_str().get_char(x - sx), style);
        }
        k += 1;
    }
    cell
}

/// The ruler's cells.
pub fn ruler_cells(t: &ActiveTheme, g: &Geometry, width: usize, cursor: usize, playhead: Option<usize>, grid_on: bool) -> (cells: Vec<(char, Style)>)
    requires
        drawable(*g),
    ensures
        cells@ == ruler_spec(t, *g, width as nat, cursor as int, playhead, grid_on),
{
    let per = if g.count >= 1 { g.count } else { 1 };
    let page = decimal((g.first / per + 1) as u64);
    let pages = decimal(g.pages as u64);
    let mut label = page;
    crate::text::push_char(&mut label, '/');
    label.append(pages.as_str());
    let mut cells: Vec<(char, Style)> = Vec::new();
    let mut x: usize = 0;
    while x < width
        invariant
            x <= width,
            drawable(*g),
            label@ == page_label(*g),
            cells@ =~= ruler_spec(t, *g, width as nat, cursor as int, playhead, grid_on).subrange(0, x as int),
        decreases width - x,
    {
        cells.push(ruler_cell(t, g, x, cursor, playhead, grid_on, &label));
        x += 1;
    }
    cells
}

/// One step of a lane: whether it is on, accented, and held into the next.
#[derive(Clone, Copy, Debug, PartialEq, Eq, Structural)]
pub struct StepCell {
    pub on: bool,
    pub accent: bool,
    pub tie: bool,
}

/// What a lane's row reads.
pub struct LaneRow {
    pub label: String,
    /// The lane cursor is on it.
    pub here: bool,
    pub soloed: bool,
    pub muted: bool,
    pub audible: bool,
    /// Every step of the lane, from the first.
    pub steps: Vec<StepCell>,
}

/// How the step grid is being looked at.
#[derive(Clone, Copy, Debug, PartialEq, Eq, Structural)]
pub struct GridView {
    /// The view has the keys.
    pub focused: bool,
    /// ...and its cursor is in the grid band.
    pub grid_on: bool,
    pub colour: Color,
    pub step_cursor: usize,
    pub playhead: Option<usize>,
}

/// The row's background: lighter on the lane being written while the grid
/// has the cursor.
pub open spec fn lane_bg(t: &ActiveTheme, here: bool, v: GridView) -> Color {
    if here && v.grid_on { theme::lighten_spec(active(t).bg, 8) } else { active(t).bg }
}

/// The lane's label: a mark on the lane being written, its name right-aligned
/// in two, and `s` or `m` when it is soloed or muted.
pub open spec fn lane_label_spec(lane: LaneRow) -> Seq<char> {
    seq![if lane.here { '\u{25B8}' } else { ' ' }] + right_aligned_spec(lane.label@, 2)
        + seq![if lane.soloed { 's' } else if lane.muted { 'm' } else { ' ' }]
}

pub open spec fn lane_label_style(t: &ActiveTheme, lane: LaneRow, v: GridView) -> Style {
    let bg = lane_bg(t, lane.here, v);
    if lane.here && v.focused {
        bolded(colors(active(t).amber_bright, bg))
    } else if lane.soloed {
        colors(Color::Rgb(84, 148, 46), bg)
    } else if lane.muted || !lane.audible {
        colors(active(t).dim, bg)
    } else {
        colors(theme::dim_color_spec(v.colour, 70), bg)
    }
}

/// A lane cell before the steps: its label at the left, the row's background
/// elsewhere.
pub open spec fn lane_base(t: &ActiveTheme, lane: LaneRow, v: GridView, x: int) -> (char, Style) {
    let text = lane_label_spec(lane);
    if x < text.len() { (text[x], lane_label_style(t, lane, v)) } else { (' ', on(lane_bg(t, lane.here, v))) }
}

/// The `k`-th step of the page painted over a lane cell: a hit solid, an
/// accent bright, an empty step shaded; the step under the cursor on a
/// lighter ground; a tie's tail in the separator column; and the light over
/// the whole cell while the pattern is on the step.
pub open spec fn lane_step(cell: (char, Style), t: &ActiveTheme, g: Geometry, lane: LaneRow, v: GridView, x: int, k: int) -> (char, Style) {
    let step = g.first + k;
    let sx = step_x(g, k);
    let value = lane.steps@[step];
    let (glyph, fg) = if value.on && value.accent {
        ('\u{2588}', active(t).amber_bright)
    } else if value.on {
        ('\u{2593}', if lane.audible { v.colour } else { theme::dim_color_spec(v.colour, 40) })
    } else {
        ('\u{2591}', theme::lighten_spec(active(t).bg, 6))
    };
    let cursor_here = lane.here && step == v.step_cursor;
    let bg = if cursor_here {
        if v.grid_on { theme::lighten_spec(active(t).bg, 18) } else { theme::lighten_spec(active(t).bg, 8) }
    } else {
        lane_bg(t, lane.here, v)
    };
    let style = Style { fg: Some(fg), bg: Some(bg), bold: value.on, underlined: false, crossed_out: false };
    let c1 = if sx <= x < sx + g.cell - 1 {
        (glyph, style)
    } else if x == sx + g.cell - 1 {
        (if value.on && value.tie { '\u{2500}' } else { ' ' }, colors(theme::dim_color_spec(v.colour, 45), bg))
    } else {
        cell
    };
    if v.playhead == Some(step as usize) && sx <= x < sx + g.cell { (c1.0, light_spec(t)) } else { c1 }
}

pub open spec fn lane_steps(cell: (char, Style), t: &ActiveTheme, g: Geometry, lane: LaneRow, v: GridView, x: int, n: int) -> (char, Style)
    decreases n,
{
    if n <= 0 {
        cell
    } else {
        lane_step(lane_steps(cell, t, g, lane, v, x, n - 1), t, g, lane, v, x, n - 1)
    }
}

/// One lane's row of the grid, `width` cells.
pub open spec fn lane_row_spec(t: &ActiveTheme, g: Geometry, lane: LaneRow, v: GridView, width: nat) -> Seq<(char, Style)> {
    Seq::new(width, |x: int| lane_steps(lane_base(t, lane, v, x), t, g, lane, v, x, g.count as int))
}

/// Steps after the `k`-th on the page leave a cell left of their own alone.
proof fn lemma_later_steps_pass_over(
    cell: (char, Style),
    t: &ActiveTheme,
    g: Geometry,
    lane: LaneRow,
    v: GridView,
    x: int,
    k: int,
    n: int,
)
    requires
        2 <= g.cell <= 3,
        0 <= k < n,
        x < LABEL_W as int + (k + 1) * g.cell + k / 4,
    ensures
        lane_steps(cell, t, g, lane, v, x, n) == lane_steps(cell, t, g, lane, v, x, k + 1),
    decreases n,
{
    if n > k + 1 {
        lemma_later_steps_pass_over(cell, t, g, lane, v, x, k, n - 1);
        let j = n - 1;
        let c = g.cell as int;
        assert(j * c >= (k + 1) * c) by (nonlinear_arith)
            requires j >= k + 1, c >= 0;
        assert(j / 4 >= k / 4) by (nonlinear_arith)
            requires j >= k;
        assert(x < step_x(g, j));
    }
}

/// **Accents stand out on the grid.** In the first column of a step on the
/// page, a hit that is accented is a full block, in the theme's bright
/// amber unless the running light is over it; a plain hit is a dark-shaded
/// block, and an empty step a light-shaded one, so the three never read
/// alike.
pub proof fn lemma_accents_stand_out(t: &ActiveTheme, g: Geometry, lane: LaneRow, v: GridView, width: nat, k: int)
    requires
        2 <= g.cell <= 3,
        0 <= k < g.count,
        lane.steps@.len() >= g.first + g.count,
        LABEL_W as int + k * g.cell + k / 4 < width,
    ensures
        ({
            let step = lane.steps@[g.first + k];
            let c = lane_row_spec(t, g, lane, v, width)[LABEL_W as int + k * g.cell + k / 4];
            &&& step.on && step.accent ==> c.0 == '\u{2588}'
            &&& step.on && step.accent && v.playhead != Some((g.first + k) as usize)
                ==> c.1.fg == Some(active(t).amber_bright)
            &&& step.on && !step.accent ==> c.0 == '\u{2593}'
            &&& !step.on ==> c.0 == '\u{2591}'
        }),
{
    let x = LABEL_W as int + k * g.cell + k / 4;
    let base = lane_base(t, lane, v, x);
    assert(lane_row_spec(t, g, lane, v, width)[x] == lane_steps(base, t, g, lane, v, x, g.count as int));
    assert((k + 1) * g.cell == k * g.cell + g.cell) by (nonlinear_arith);
    lemma_later_steps_pass_over(base, t, g, lane, v, x, k, g.count as int);
    assert(lane_steps(base, t, g, lane, v, x, k + 1) == lane_step(lane_steps(base, t, g, lane, v, x, k), t, g, lane, v, x, k));
    assert(step_x(g, k) == x);
}

fn lane_cell(t: &ActiveTheme, g: &Geometry, lane: &LaneRow, v: &GridView, x: usize, label: &String, label_style: Style, row_bg: Color) -> (cell: (char, Style))
    requires
        drawable(*g),
        lane.steps@.len() >= g.first + g.count,
        label@ == lane_label_spec(*lane),
        label_style == lane_label_style(t, *lane, *v),
        row_bg == lane_bg(t, lane.here, *v),
    ensures
        cell == lane_steps(lane_base(t, *lane, *v, x as int), t, *g, *lane, *v, x as int, g.count as int),
{
    let mut cell: (char, Style) = if x < char_count(label.as_str()) {
        (label.as_str().get_char(x), label_style)
    } else {
        (' ', Style::new().bg(row_bg))
    };
    let ghost base = cell;
    let mut k: usize = 0;
    while k < g.count
        invariant
            k <= g.count,
            drawable(*g),
            lane.steps@.len() >= g.first + g.count,
            row_bg == lane_bg(t, lane.here, *v),
            cell == lane_steps(base, t, *g, *lane, *v, x as int, k as int),
        decreases g.count - k,
    {
        let step = g.first + k;
        assert(k * g.cell <= (usize::MAX / 8) * 3) by (nonlinear_arith)
            requires
                k <= usize::MAX / 8,
                g.cell <= 3,
        ;
        let sx = LABEL_W + k * g.cell + k / 4;
        let value = lane.steps[step];
        let (glyph, fg) = if value.on && value.accent {
            ('\u{2588}', theme::amber_bright_val(t))
        } else if value.on {
            ('\u{2593}', if lane.audible { v.colour } else { theme::dim_color(v.colour, 40) })
        } else {
            ('\u{2591}', theme::grid_minor(t))
        };
        let cursor_here = lane.here && step == v.step_cursor;
        let bg = if cursor_here {
            if v.grid_on { theme::col_row_bg(t) } else { theme::col_highlight_bg(t) }
        } else {
            row_bg
        };
        let style = Style { fg: Some(fg), bg: Some(bg), bold: value.on, underlined: false, crossed_out: false };
        if sx <= x && x < sx + g.cell - 1 {
            cell = (glyph, style);
        } else if x == sx + g.cell - 1 {
            proof {
                theme::lemma_dims_safely(v.colour, 45);
            }
            cell = (if value.on && value.tie { '\u{2500}' } else { ' ' }, Style::new().fg(theme::dim_color(v.colour, 45)).bg(bg));
        }
        let lit = match v.playhead {
            Some(p) => p == step,
            None => false,
        };
        if lit && sx <= x && x < sx + g.cell {
            cell = (cell.0, crate::steps::light(t));
        }
        k += 1;
    }
    cell
}

/// One lane's row of the grid.
pub fn lane_cells(t: &ActiveTheme, g: &Geometry, lane: &LaneRow, v: &GridView, width: usize) -> (cells: Vec<(char, Style)>)
    requires
        drawable(*g),
        lane.steps@.len() >= g.first + g.count,
    ensures
        cells@ == lane_row_spec(t, *g, *lane, *v, width as nat),
{
    let row_bg = if lane.here && v.grid_on { theme::col_highlight_bg(t) } else { theme::bg_val(t) };
    let mark = if lane.here { '\u{25B8}' } else { ' ' };
    let state_mark = if lane.soloed { 's' } else if lane.muted { 'm' } else { ' ' };
    let mut label = char_string(mark);
    let name = right_aligned(lane.label.as_str(), 2);
    label.append(name.as_str());
    crate::text::push_char(&mut label, state_mark);
    proof {
        theme::lemma_dims_safely(v.colour, 70);
    }
    let label_style = if lane.here && v.focused {
        Style::new().fg(theme::amber_bright_val(t)).bg(row_bg).bold()
    } else if lane.soloed {
        Style::new().fg(theme::solo_active_fg()).bg(row_bg)
    } else if lane.muted || !lane.audible {
        Style::new().fg(theme::dim_color_val(t)).bg(row_bg)
    } else {
        Style::new().fg(theme::dim_color(v.colour, 70)).bg(row_bg)
    };
    let mut cells: Vec<(char, Style)> = Vec::new();
    let mut x: usize = 0;
    while x < width
        invariant
            x <= width,
            drawable(*g),
            lane.steps@.len() >= g.first + g.count,
            label@ == lane_label_spec(*lane),
            label_style == lane_label_style(t, *lane, *v),
            row_bg == lane_bg(t, lane.here, *v),
            cells@ =~= lane_row_spec(t, *g, *lane, *v, width as nat).subrange(0, x as int),
        decreases width - x,
    {
        cells.push(lane_cell(t, g, lane, v, x, &label, label_style, row_bg));
        x += 1;
    }
    cells
}

} // verus!
