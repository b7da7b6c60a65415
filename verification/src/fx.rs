//! The effect panels' own rules: when a panel is wide enough for the wide
//! layout, how one control's cell is drawn, the colour of a setting that is
//! doing something alarming, and what the compressor's key row says.

use vstd::prelude::*;

use crate::style::{bolded, colors, Style};
use crate::text::{concatenated, left_aligned, left_aligned_spec, span_views, Span};
use crate::theme::{self, active, ActiveTheme};

verus! {

/// The narrowest panel that gets the response curve, in columns: below it
/// the bands become rows and the curve is dropped.
pub const WIDE_PANEL: usize = 95;

/// Whether a pane this wide draws the wide layout.
pub fn is_wide(pane_width: usize) -> (wide: bool)
    ensures
        wide == (pane_width >= WIDE_PANEL),
{
    pane_width >= WIDE_PANEL
}

/// How one control's cell is drawn.
///
/// Held reads as inverse video in the theme's own colours, as a held knob
/// does everywhere else; a control the band type does not use is greyed,
/// which is the same fact the keys say by refusing it.
pub open spec fn cell_style_spec(t: &ActiveTheme, selected: bool, locked: bool, live: bool, focused: bool) -> Style {
    if selected && locked {
        bolded(colors(active(t).bg, active(t).amber_bright))
    } else if selected && focused {
        bolded(colors(active(t).amber_bright, active(t).bg))
    } else if !live {
        colors(active(t).dim, active(t).bg)
    } else {
        colors(active(t).normal, active(t).bg)
    }
}

pub fn cell_style(t: &ActiveTheme, selected: bool, locked: bool, live: bool, focused: bool) -> (s: Style)
    ensures
        s == cell_style_spec(t, selected, locked, live, focused),
{
    if selected && locked {
        Style::new().fg(theme::bg_val(t)).bg(theme::amber_bright_val(t)).bold()
    } else if selected && focused {
        theme::amber_bright(t).bold()
    } else if !live {
        theme::dim(t)
    } else {
        theme::normal(t)
    }
}

/// The colour a control that is doing something alarming is drawn in — a
/// feedback setting past unity, or a synced division the line had to fold in
/// half to hold — asked of the theme so it follows the palette.
pub fn alarm_style(t: &ActiveTheme) -> (s: Style)
    ensures
        s == colors(active(t).rec_active, active(t).bg),
{
    Style::new().fg(theme::rec_active_val(t)).bg(theme::bg_val(t))
}

/// A track as the key row looks it up: the mixer's id for it, if it has one
/// yet, and its name.
pub struct KeyTrack {
    pub mixer_id: Option<u64>,
    pub name: String,
}

/// The track whose compressor is on the panel, as the key row reads it.
pub struct KeyedTrack {
    /// An instrument or audio track: the only kinds a key can feed.
    pub keyable: bool,
    /// The mixer id of the track feeding the detector, if one does.
    pub key_source: Option<u64>,
    /// The name that track had when it was chosen, kept for the day it goes.
    pub key_source_name: Option<String>,
}

/// The first track, from `k` on, with this mixer id.
pub open spec fn first_with_id(tracks: Seq<KeyTrack>, id: u64, k: int) -> Option<int>
    decreases tracks.len() - k,
{
    if k < 0 || k >= tracks.len() {
        None
    } else if tracks[k].mixer_id == Some(id) {
        Some(k)
    } else {
        first_with_id(tracks, id, k + 1)
    }
}

/// What the key row says: `internal` when the detector hears the track
/// itself; the feeding track's name; and when that track has gone, the name
/// it had, marked missing, so the player knows which track went.
pub open spec fn key_label_spec(tracks: Seq<KeyTrack>, current: Option<KeyedTrack>) -> Seq<char> {
    match current {
        None => "internal"@,
        Some(c) => if !c.keyable {
            "internal"@
        } else {
            match c.key_source {
                None => "internal"@,
                Some(id) => match first_with_id(tracks, id, 0) {
                    Some(i) => tracks[i].name@,
                    None => match c.key_source_name {
                        Some(n) => n@ + " (missing)"@,
                        None => "(missing)"@,
                    },
                },
            }
        },
    }
}

pub fn comp_key_label(tracks: &Vec<KeyTrack>, current: &Option<KeyedTrack>) -> (label: String)
    ensures
        label@ == key_label_spec(tracks@, *current),
{
    let c = match current {
        None => { return String::from_str("internal"); },
        Some(c) => c,
    };
    if !c.keyable {
        return String::from_str("internal");
    }
    let id = match c.key_source {
        None => { return String::from_str("internal"); },
        Some(id) => id,
    };
    let mut k: usize = 0;
    while k < tracks.len()
        invariant
            k <= tracks@.len(),
            *current == Some(*c),
            c.keyable,
            c.key_source == Some(id),
            first_with_id(tracks@, id, 0) == first_with_id(tracks@, id, k as int),
        decreases tracks@.len() - k,
    {
        if let Some(m) = tracks[k].mixer_id {
            if m == id {
                return tracks[k].name.clone();
            }
        }
        k += 1;
    }
    match &c.key_source_name {
        Some(n) => concatenated(n.as_str(), " (missing)"),
        None => String::from_str("(missing)"),
    }
}

/// One effect in the chain column, as it reads: its name, and whether it is
/// in the signal path.
pub struct SlotName {
    pub label: String,
    pub active: bool,
}

/// A slot's row: the cursor's mark, the switch as a filled or hollow dot,
/// the name in six columns, `byp` on a bypassed slot (`midi` on an active
/// one in the MIDI rack), and a mark on the slot whose panel is open.
pub open spec fn slot_line_spec(t: &ActiveTheme, slot: SlotName, here: bool, open: bool, midi: bool) -> Seq<(Seq<char>, Style)> {
    let style = if here {
        bolded(colors(active(t).amber_bright, active(t).bg))
    } else if slot.active {
        colors(active(t).normal, active(t).bg)
    } else {
        colors(active(t).dim, active(t).bg)
    };
    let dim = colors(active(t).dim, active(t).bg);
    seq![
        (if here { " \u{25B6} "@ } else { "   "@ }, style),
        (if slot.active { "\u{25CF} "@ } else { "\u{25CB} "@ }, if slot.active { style } else { dim }),
        (left_aligned_spec(slot.label@, 6), style),
        (if slot.active { if midi { "midi"@ } else { Seq::empty() } } else { "byp"@ }, dim),
        (if open { "\u{25B8}"@ } else { Seq::empty() }, colors(active(t).amber, active(t).bg)),
    ]
}

fn slot_line(t: &ActiveTheme, slot: &SlotName, here: bool, open: bool, midi: bool) -> (spans: Vec<Span>)
    ensures
        span_views(spans@) == slot_line_spec(t, *slot, here, open, midi),
{
    let style = if here {
        theme::amber_bright(t).bold()
    } else if slot.active {
        theme::normal(t)
    } else {
        theme::dim(t)
    };
    let mut spans: Vec<Span> = Vec::new();
    spans.push(Span::styled(String::from_str(if here { " \u{25B6} " } else { "   " }), style));
    spans.push(Span::styled(
        String::from_str(if slot.active { "\u{25CF} " } else { "\u{25CB} " }),
        if slot.active { style } else { theme::dim(t) },
    ));
    spans.push(Span::styled(left_aligned(slot.label.as_str(), 6), style));
    spans.push(Span::styled(
        if slot.active { if midi { String::from_str("midi") } else { String::new() } } else { String::from_str("byp") },
        theme::dim(t),
    ));
    spans.push(Span::styled(if open { String::from_str("\u{25B8}") } else { String::new() }, theme::amber(t)));
    assert(span_views(spans@) =~~= slot_line_spec(t, *slot, here, open, midi));
    spans
}

/// Lines as what they show.
pub open spec fn line_views(lines: Seq<Vec<Span>>) -> Seq<Seq<(Seq<char>, Style)>> {
    lines.map_values(|l: Vec<Span>| span_views(l@))
}

/// What the chain column reads.
pub struct ChainView {
    /// The MIDI rack, which runs on the notes before the instrument.
    pub midi: Vec<SlotName>,
    pub chain: Vec<SlotName>,
    pub cursor: usize,
    /// The column has the keys.
    pub focused: bool,
    pub open_midi: Option<usize>,
    pub open: Option<usize>,
    /// How many slots a chain can hold.
    pub max_slots: usize,
}

/// The chain column, before it is cut to its height: what to do with an
/// empty chain; else the MIDI rack's slots, the chain's, and the way to add
/// one while there is room; and while the column has the keys, what they do.
pub open spec fn chain_lines_spec(t: &ActiveTheme, c: ChainView) -> Seq<Seq<(Seq<char>, Style)>> {
    let dim = colors(active(t).dim, active(t).bg);
    let total = c.midi@.len() + c.chain@.len();
    let cursor = if c.cursor <= total - 1 { c.cursor as int } else { total - 1 };
    (if total == 0 {
        seq![
            seq![("  (no fx)"@, dim)],
            seq![("  a \u{2014} add one"@, colors(active(t).muted, active(t).bg))],
            Seq::empty(),
            seq![("  works on tracks,"@, dim)],
            seq![("  buses and master"@, dim)],
        ]
    } else {
        Seq::new(c.midi@.len(), |i: int| slot_line_spec(t, c.midi@[i], c.focused && cursor == i, c.open_midi == Some(i as usize), true))
        + Seq::new(c.chain@.len(), |i: int| slot_line_spec(
            t, c.chain@[i], c.focused && cursor == c.midi@.len() + i, c.open == Some(i as usize), false))
        + (if c.chain@.len() < c.max_slots { seq![seq![("   a \u{2014} add"@, dim)]] } else { Seq::empty() })
    }) + (if c.focused {
        seq![Seq::empty(), seq![("  enter open  b bypass"@, dim)], seq![("  [ ] order  d remove"@, dim)]]
    } else {
        Seq::empty()
    })
}

fn one_line(text: &str, style: Style) -> (line: Vec<Span>)
    ensures
        span_views(line@) == seq![(text@, style)],
{
    let mut line: Vec<Span> = Vec::new();
    line.push(Span::styled(String::from_str(text), style));
    assert(span_views(line@) =~= seq![(text@, style)]);
    line
}

/// The chain column, `h` rows of it.
pub fn chain_lines(t: &ActiveTheme, c: &ChainView, h: usize) -> (lines: Vec<Vec<Span>>)
    requires
        c.midi.len() + c.chain.len() <= usize::MAX,
    ensures
        line_views(lines@) == (if chain_lines_spec(t, *c).len() <= h {
            chain_lines_spec(t, *c)
        } else {
            chain_lines_spec(t, *c).subrange(0, h as int)
        }),
{
    let dim = theme::dim(t);
    let mut lines: Vec<Vec<Span>> = Vec::new();
    let total = c.midi.len() + c.chain.len();
    if total == 0 {
        lines.push(one_line("  (no fx)", dim));
        lines.push(one_line("  a \u{2014} add one", theme::muted(t)));
        lines.push(Vec::new());
        lines.push(one_line("  works on tracks,", dim));
        lines.push(one_line("  buses and master", dim));
    } else {
        let cursor = if c.cursor <= total - 1 { c.cursor } else { total - 1 };
        let mut i: usize = 0;
        while i < c.midi.len()
            invariant
                i <= c.midi.len(),
                total == c.midi@.len() + c.chain@.len(),
                cursor == (if c.cursor <= total - 1 { c.cursor as int } else { total - 1 }),
                line_views(lines@) =~~= Seq::new(i as nat, |k: int| slot_line_spec(
                    t, c.midi@[k], c.focused && cursor == k, c.open_midi == Some(k as usize), true)),
            decreases c.midi.len() - i,
        {
            let open = match c.open_midi {
                Some(o) => o == i,
                None => false,
            };
            let line = slot_line(t, &c.midi[i], c.focused && cursor == i, open, true);
            let ghost before = line_views(lines@);
            let ghost lv = span_views(line@);
            lines.push(line);
            proof {
                assert(line_views(lines@) =~~= before.push(lv));
            }
            i += 1;
        }
        let ghost rack = line_views(lines@);
        let mut i: usize = 0;
        while i < c.chain.len()
            invariant
                i <= c.chain.len(),
                total == c.midi@.len() + c.chain@.len(),
                cursor == (if c.cursor <= total - 1 { c.cursor as int } else { total - 1 }),
                line_views(lines@) =~~= rack + Seq::new(i as nat, |k: int| slot_line_spec(
                    t, c.chain@[k], c.focused && cursor == c.midi@.len() + k, c.open == Some(k as usize), false)),
            decreases c.chain.len() - i,
        {
            let open = match c.open {
                Some(o) => o == i,
                None => false,
            };
            let line = slot_line(t, &c.chain[i], c.focused && cursor == c.midi.len() + i, open, false);
            let ghost before = line_views(lines@);
            let ghost lv = span_views(line@);
            lines.push(line);
            proof {
                assert(line_views(lines@) =~~= before.push(lv));
            }
            i += 1;
        }
        if c.chain.len() < c.max_slots {
            lines.push(one_line("   a \u{2014} add", dim));
        }
    }
    if c.focused {
        lines.push(Vec::new());
        lines.push(one_line("  enter open  b bypass", dim));
        lines.push(one_line("  [ ] order  d remove", dim));
    }
    let ghost all = line_views(lines@);
    assert(all =~~= chain_lines_spec(t, *c));
    lines.truncate(h);
    proof {
        if h < all.len() {
            assert(line_views(lines@) =~~= all.subrange(0, h as int));
        } else {
            assert(line_views(lines@) =~~= all);
        }
    }
    lines
}

} // verus!
