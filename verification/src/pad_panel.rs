//! The pad panel's text: the list of every sound on the pad or in the
//! zone, the panel on a key no zone covers, the one line a panel too
//! narrow for its knobs is cut to, and the panel itself — the pad's knobs,
//! the selected sound's under them, and the sound list, scrolled so the
//! control under the cursor stays on the screen.

use vstd::prelude::*;

use crate::kit::{heading, heading_spec};
use crate::knobs::{knob_width_spec, placed, rows_upto, widths, window, window_start, Knob, Panel};
use crate::style::Color;
use crate::pads::{clip_text, clip_text_spec, row_push, str_views, widest_push, Row};
use crate::style::{bolded, colors, Style};
use crate::text::{
    concatenated, decimal, decimal_spec, left_aligned, left_aligned_spec, repeat_char, repeated,
    right_aligned, right_aligned_spec, span_views, Span,
};
use crate::theme::{self, active, ActiveTheme};

verus! {

/// The column the panel's knobs start in, under their heading.
pub const INDENT: usize = 9;

/// The narrowest the knob panel is drawn at: the heading column and the
/// widest knob a pad has.
pub const MIN_PANEL_W: usize = 29;

/// How many layers a pad holds at most.
pub const MAX_LAYERS: u64 = 8;

/// How many phrases a pad holds at most.
pub const MAX_PHRASES: u64 = 4;

/// What a row of the sound list is.
#[derive(Clone, Copy, Debug, PartialEq, Eq, Structural)]
pub enum SoundKind {
    /// A recorded layer, which may have lost its file.
    Layer { missing: bool },
    /// A phrase: a performance the pad plays on an instrument.
    Phrase,
}

/// One sound as the list reads it; its length and level come already
/// written out.
pub struct SoundLine {
    pub name: String,
    /// How long it plays, such as `1.00s`.
    pub seconds: String,
    /// What it is turned up to: decibels for a layer, a percentage for a
    /// phrase.
    pub level: String,
    pub muted: bool,
    pub kind: SoundKind,
}

/// The room a sound's name gets on a list `width` wide: what the columns
/// around it leave, between four and eighteen cells.
pub open spec fn sound_name_width(width: int) -> int {
    let rest = width - (INDENT + 17 + if width >= INDENT + 33 { 8int } else { 2int });
    if rest < 4 {
        4
    } else if rest > 18 {
        18
    } else {
        rest
    }
}

/// A sound's row: the caret against the number, the number, the name, the
/// length, the level, and last what is wrong with it or what it is — a
/// missing file before a mute, a phrase with nothing to play it before the
/// word `phr`; the warnings cut to a shorter word rather than dropped.
pub open spec fn sound_row_spec(
    t: &ActiveTheme,
    s: SoundLine,
    index: int,
    here: bool,
    focused: bool,
    has_child: bool,
    width: int,
) -> Seq<(Seq<char>, Style)> {
    let dim = colors(active(t).dim, active(t).bg);
    let amber = colors(active(t).amber, active(t).bg);
    let alarm = colors(active(t).rec_active, active(t).bg);
    let mark_style = if here && focused {
        bolded(colors(active(t).amber_bright, active(t).bg))
    } else if here {
        amber
    } else {
        dim
    };
    let w = sound_name_width(width);
    let m1 = row_push(
        (Seq::empty(), width),
        right_aligned_spec(if here { seq!['\u{25B8}', ' '] } else { Seq::empty() }, INDENT as nat),
        mark_style,
    );
    let m2 = row_push(m1, decimal_spec((index + 1) as nat) + seq![' '], dim);
    let m3 = row_push(
        m2,
        left_aligned_spec(clip_text_spec(s.name@, w), w as nat),
        if s.muted { dim } else { colors(active(t).normal, active(t).bg) },
    );
    let m4 = row_push(m3, right_aligned_spec(s.seconds@, 7), dim);
    let m5 = row_push(m4, right_aligned_spec(s.level@, 8), dim);
    let m6 = match s.kind {
        SoundKind::Layer { missing } => if missing {
            widest_push(m5, seq![" missing"@, " !"@], alarm)
        } else if s.muted {
            row_push(m5, seq![' ', '\u{25CF}'], amber)
        } else {
            m5
        },
        SoundKind::Phrase => if !has_child {
            widest_push(m5, seq![" no instrument"@, " no inst"@, " !"@], alarm)
        } else {
            let a = row_push(m5, seq![' ', 'p', 'h', 'r'], dim);
            if s.muted { row_push(a, seq![' ', '\u{25CF}'], amber) } else { a }
        },
    };
    m6.0
}

pub fn sound_row(
    t: &ActiveTheme,
    s: &SoundLine,
    index: usize,
    here: bool,
    focused: bool,
    has_child: bool,
    width: usize,
) -> (spans: Vec<Span>)
    requires
        index < usize::MAX,
    ensures
        span_views(spans@) == sound_row_spec(t, *s, index as int, here, focused, has_child, width as int),
{
    proof {
        reveal_strlit("\u{25B8} ");
        reveal_strlit("");
        reveal_strlit(" ");
        reveal_strlit(" \u{25CF}");
        reveal_strlit(" phr");
    }
    assert(" "@ =~= seq![' ']);
    assert(" \u{25CF}"@ =~= seq![' ', '\u{25CF}']);
    assert(" phr"@ =~= seq![' ', 'p', 'h', 'r']);
    let dim = theme::dim(t);
    let mark_style = if here && focused {
        theme::amber_bright(t).bold()
    } else if here {
        theme::amber(t)
    } else {
        theme::dim(t)
    };
    let rest_from = INDENT + 17 + if width >= INDENT + 33 { 8 } else { 2 };
    let rest = if width > rest_from { width - rest_from } else { 0 };
    let w = if rest < 4 { 4 } else if rest > 18 { 18 } else { rest };
    let mut row = Row::new(width);
    let mark = if here { "\u{25B8} " } else { "" };
    assert(mark@ =~= (if here { seq!['\u{25B8}', ' '] } else { Seq::<char>::empty() }));
    row.push(right_aligned(mark, INDENT), mark_style);
    let n = decimal((index + 1) as u64);
    row.push(concatenated(n.as_str(), " "), dim);
    let name = clip_text(s.name.as_str(), w);
    row.push(left_aligned(name.as_str(), w), if s.muted { theme::dim(t) } else { theme::normal(t) });
    row.push(right_aligned(s.seconds.as_str(), 7), dim);
    row.push(right_aligned(s.level.as_str(), 8), dim);
    let alarm = crate::fx::alarm_style(t);
    match s.kind {
        SoundKind::Layer { missing } => {
            if missing {
                let options = vec![" missing", " !"];
                assert(str_views(options@) =~= seq![" missing"@, " !"@]);
                row.push_widest(&options, alarm);
            } else if s.muted {
                row.push(String::from_str(" \u{25CF}"), theme::amber(t));
            }
        },
        SoundKind::Phrase => {
            if !has_child {
                let options = vec![" no instrument", " no inst", " !"];
                assert(str_views(options@) =~= seq![" no instrument"@, " no inst"@, " !"@]);
                row.push_widest(&options, alarm);
            } else {
                row.push(String::from_str(" phr"), dim);
                if s.muted {
                    row.push(String::from_str(" \u{25CF}"), theme::amber(t));
                }
            }
        },
    }
    row.line()
}

/// How much of the bed is used: the layers, and the phrases when there are
/// any.
pub open spec fn beds_spec(layers: nat, phrases: nat) -> Seq<char> {
    if phrases == 0 {
        decimal_spec(layers) + " of 8"@
    } else {
        decimal_spec(layers) + " of 8 \u{00b7} "@ + decimal_spec(phrases) + " of 4 phr"@
    }
}

/// The sound the list's cursor is on: the view's, pulled inside what the
/// pad holds.
pub open spec fn sound_cursor(layer: int, rows: int) -> int {
    let last = if rows >= 1 { rows - 1 } else { 0 };
    if layer < last { layer } else { last }
}

/// Every sound on the pad or in the zone, layers first and phrases after:
/// a heading, one row each, and what is left of the bed with the keys that
/// act on the row under the cursor — or, with nothing on it, the key that
/// loads a sound.
pub open spec fn sound_list_spec(
    t: &ActiveTheme,
    sounds: Seq<SoundLine>,
    layer: int,
    focused: bool,
    keys_mode: bool,
    layers: nat,
    phrases: nat,
    has_child: bool,
    width: int,
) -> Seq<Seq<(Seq<char>, Style)>> {
    let dim = colors(active(t).dim, active(t).bg);
    let head = seq![(right_aligned_spec("sounds"@, 8) + seq![' '], dim)];
    if sounds.len() == 0 {
        let what = if keys_mode { "this zone"@ } else { "this pad"@ };
        seq![head, seq![(clip_text_spec(repeated(' ', 9) + "a loads a sound onto "@ + what, width), dim)]]
    } else {
        let cursor = sound_cursor(layer, sounds.len() as int);
        let foot = clip_text_spec(
            repeated(' ', 9) + beds_spec(layers, phrases) + " \u{00b7} [ ] picks \u{00b7} m mutes \u{00b7} d removes"@,
            width,
        );
        seq![head] + Seq::new(
            sounds.len(),
            |i: int| sound_row_spec(t, sounds[i], i, i == cursor, focused, has_child, width),
        ) + seq![seq![(foot, dim)]]
    }
}

fn beds(layers: u64, phrases: u64) -> (s: String)
    ensures
        s@ == beds_spec(layers as nat, phrases as nat),
{
    let l = decimal(layers);
    if phrases == 0 {
        concatenated(l.as_str(), " of 8")
    } else {
        let s = concatenated(l.as_str(), " of 8 \u{00b7} ");
        let p = decimal(phrases);
        let s = concatenated(s.as_str(), p.as_str());
        concatenated(s.as_str(), " of 4 phr")
    }
}

pub fn sound_list(
    t: &ActiveTheme,
    sounds: &Vec<SoundLine>,
    layer: usize,
    focused: bool,
    keys_mode: bool,
    layers: u64,
    phrases: u64,
    has_child: bool,
    width: usize,
) -> (lines: Vec<Vec<Span>>)
    ensures
        lines@.len() == sound_list_spec(t, sounds@, layer as int, focused, keys_mode, layers as nat, phrases as nat, has_child, width as int).len(),
        forall|i: int|
            0 <= i < lines@.len() ==> span_views(#[trigger] lines@[i]@) == sound_list_spec(
                t,
                sounds@,
                layer as int,
                focused,
                keys_mode,
                layers as nat,
                phrases as nat,
                has_child,
                width as int,
            )[i],
{
    let ghost want = sound_list_spec(t, sounds@, layer as int, focused, keys_mode, layers as nat, phrases as nat, has_child, width as int);
    proof {
        reveal_strlit(" ");
    }
    assert(" "@ =~= seq![' ']);
    let head_text = right_aligned("sounds", 8);
    let head_text = concatenated(head_text.as_str(), " ");
    let mut lines: Vec<Vec<Span>> = Vec::new();
    lines.push(vec![Span::styled(head_text, theme::dim(t))]);
    let ghost head_v = seq![(right_aligned_spec("sounds"@, 8) + seq![' '], colors(active(t).dim, active(t).bg))];
    assert(span_views(lines@[0]@) =~= head_v);
    let pad = repeat_char(' ', INDENT);
    if sounds.len() == 0 {
        let s = concatenated(pad.as_str(), "a loads a sound onto ");
        let s = concatenated(s.as_str(), if keys_mode { "this zone" } else { "this pad" });
        lines.push(vec![Span::styled(clip_text(s.as_str(), width), theme::dim(t))]);
        assert(span_views(lines@[1]@) =~= want[1]);
        return lines;
    }
    let last = sounds.len() - 1;
    let cursor = if layer < last { layer } else { last };
    assert(want[0] == head_v);
    let mut i: usize = 0;
    while i < sounds.len()
        invariant
            i <= sounds@.len(),
            sounds@.len() > 0,
            cursor == sound_cursor(layer as int, sounds@.len() as int),
            lines@.len() == 1 + i,
            want.len() == sounds@.len() + 2,
            span_views(lines@[0]@) == want[0],
            forall|j: int| 1 <= j < lines@.len() ==> span_views(#[trigger] lines@[j]@) == want[j],
            forall|j: int|
                1 <= j <= sounds@.len() ==> #[trigger] want[j] == sound_row_spec(
                    t,
                    sounds@[j - 1],
                    j - 1,
                    j - 1 == cursor,
                    focused,
                    has_child,
                    width as int,
                ),
        decreases sounds@.len() - i,
    {
        let row = sound_row(t, &sounds[i], i, i == cursor, focused, has_child, width);
        lines.push(row);
        i += 1;
    }
    let b = beds(layers, phrases);
    let s = concatenated(pad.as_str(), b.as_str());
    let s = concatenated(s.as_str(), " \u{00b7} [ ] picks \u{00b7} m mutes \u{00b7} d removes");
    lines.push(vec![Span::styled(clip_text(s.as_str(), width), theme::dim(t))]);
    assert(span_views(lines@[lines@.len() - 1]@) =~= want[want.len() - 1]);
    lines
}

/// The one line a panel too narrow for its knobs is cut to: which pad the
/// keys are on, and how many sounds it holds.
pub open spec fn narrow_line_spec(t: &ActiveTheme, focused: bool, title: Seq<char>, count: nat, width: int) -> Seq<
    (Seq<char>, Style),
> {
    seq![(clip_text_spec(seq![' '] + title + " \u{00b7} "@ + decimal_spec(count) + " sounds"@, width), heading_spec(t, focused))]
}

/// The panel on a key no zone covers: where the caret is, and the three
/// keys that put a zone under it, cut to the height it has.
pub open spec fn no_zone_spec(t: &ActiveTheme, focused: bool, pad: Seq<char>, width: int, height: int) -> Seq<
    Seq<(Seq<char>, Style)>,
> {
    let dim = colors(active(t).dim, active(t).bg);
    let all = seq![
        seq![(clip_text_spec(seq![' '] + pad + " \u{00b7} no zone on this key"@, width), heading_spec(t, focused))],
        seq![(clip_text_spec(repeated(' ', 9) + "w covers the whole bed"@, width), dim)],
        seq![(clip_text_spec(repeated(' ', 9) + "o covers this octave"@, width), dim)],
        seq![(clip_text_spec(repeated(' ', 9) + "s splits the zone under the caret here"@, width), dim)],
    ];
    if height < 4 { all.subrange(0, height) } else { all }
}

pub fn no_zone_lines(t: &ActiveTheme, focused: bool, pad: &str, width: usize, height: usize) -> (lines: Vec<Vec<Span>>)
    ensures
        lines@.len() == no_zone_spec(t, focused, pad@, width as int, height as int).len(),
        forall|i: int|
            0 <= i < lines@.len() ==> span_views(#[trigger] lines@[i]@) == no_zone_spec(
                t,
                focused,
                pad@,
                width as int,
                height as int,
            )[i],
{
    let ghost want = no_zone_spec(t, focused, pad@, width as int, height as int);
    proof { reveal_strlit(" "); }
    assert(" "@ =~= seq![' ']);
    let first = concatenated(" ", pad);
    let first = concatenated(first.as_str(), " \u{00b7} no zone on this key");
    let indent = repeat_char(' ', INDENT);
    let a = concatenated(indent.as_str(), "w covers the whole bed");
    let b = concatenated(indent.as_str(), "o covers this octave");
    let c = concatenated(indent.as_str(), "s splits the zone under the caret here");
    let mut lines: Vec<Vec<Span>> = Vec::new();
    lines.push(vec![Span::styled(clip_text(first.as_str(), width), heading(t, focused))]);
    lines.push(vec![Span::styled(clip_text(a.as_str(), width), theme::dim(t))]);
    lines.push(vec![Span::styled(clip_text(b.as_str(), width), theme::dim(t))]);
    lines.push(vec![Span::styled(clip_text(c.as_str(), width), theme::dim(t))]);
    let ghost full = lines@;
    assert(forall|i: int| 0 <= i < 4 ==> span_views(#[trigger] full[i]@) =~= no_zone_spec(t, focused, pad@, width as int, 4)[i]);
    lines.truncate(height);
    lines
}

/// A sound's knobs, under the heading that names the sound.
pub struct LayerKnobs {
    pub title: String,
    pub knobs: Vec<Knob>,
}

/// What the panel is asked to draw.
pub struct PanelInput {
    /// The pad's name, such as `pad C3`.
    pub title: String,
    /// How many sounds the pad holds.
    pub count: u64,
    /// The pad's name on the keyboard, for the panel on a key no zone
    /// covers.
    pub pad_label: String,
    /// The pad's knobs, or `None` in keys mode on a key no zone covers.
    pub pad_knobs: Option<Vec<Knob>>,
    /// The selected sound's knobs, when it has any.
    pub layer: Option<LayerKnobs>,
    /// Which control the view's cursor is on, counted over both panels.
    pub knob: usize,
    pub locked: bool,
    pub focused: bool,
    pub colour: Color,
}

/// Wrapping never makes more rows than there are knobs.
proof fn lemma_placed_rows(ws: Seq<int>, indent: int, width: int, k: int)
    requires
        k >= 0,
    ensures
        0 <= placed(ws, indent, width, k).0 <= k,
    decreases k,
{
    if k > 0 {
        lemma_placed_rows(ws, indent, width, k - 1);
    }
}

/// A later knob is never on an earlier row.
proof fn lemma_placed_monotone(ws: Seq<int>, indent: int, width: int, j: int, k: int)
    requires
        0 <= j <= k,
    ensures
        placed(ws, indent, width, j).0 <= placed(ws, indent, width, k).0,
    decreases k - j,
{
    if j < k {
        lemma_placed_monotone(ws, indent, width, j, k - 1);
    }
}

/// How many rows a panel of `knobs` wraps to.
pub open spec fn knob_rows_len(knobs: Seq<Knob>, width: int) -> int {
    placed(widths(knobs), INDENT as int, width, knobs.len() as int).0 + 1
}

/// How many knobs the selected sound has.
pub open spec fn layer_count(layer: Option<LayerKnobs>) -> int {
    match layer {
        Some(l) => l.knobs@.len() as int,
        None => 0,
    }
}

/// The control the cursor is on, inside the list the pad offers.
pub open spec fn panel_cursor(knob: int, pad_n: int, layer_n: int) -> int {
    let last = pad_n + layer_n - 1;
    if knob < last { knob } else { last }
}

/// The row of the panel the cursor's control is on.
pub open spec fn panel_cursor_row(pad: Seq<Knob>, layer: Option<LayerKnobs>, knob: int, width: int) -> int {
    let cur = panel_cursor(knob, pad.len() as int, layer_count(layer));
    if cur < pad.len() {
        placed(widths(pad), INDENT as int, width, cur + 1).0
    } else {
        knob_rows_len(pad, width) + placed(
            widths(layer.unwrap().knobs@),
            INDENT as int,
            width,
            cur - pad.len() + 1,
        ).0
    }
}

/// How many rows the knobs take, the pad's and the sound's.
pub open spec fn knobs_len(pad: Seq<Knob>, layer: Option<LayerKnobs>, width: int) -> int {
    knob_rows_len(pad, width) + if layer_count(layer) > 0 {
        knob_rows_len(layer.unwrap().knobs@, width)
    } else {
        0
    }
}

/// The pad's own panel, as the panel draws it.
pub open spec fn pad_panel_spec(p: PanelInput, width: int) -> Panel {
    let pad_n = p.pad_knobs.unwrap()@.len() as int;
    let cur = panel_cursor(p.knob as int, pad_n, layer_count(p.layer));
    Panel {
        cursor: (if cur < pad_n - 1 { cur } else { pad_n - 1 }) as usize,
        active: !(cur >= pad_n) && p.focused,
        locked: p.locked,
        focused: p.focused,
        colour: p.colour,
        width: width as usize,
        indent: INDENT,
    }
}

/// The selected sound's panel, as the panel draws it.
pub open spec fn layer_panel_spec(p: PanelInput, width: int) -> Panel {
    let pad_n = p.pad_knobs.unwrap()@.len() as int;
    let cur = panel_cursor(p.knob as int, pad_n, layer_count(p.layer));
    Panel {
        cursor: (if cur >= pad_n { cur - pad_n } else { 0 }) as usize,
        active: cur >= pad_n && p.focused,
        locked: p.locked,
        focused: p.focused,
        colour: p.colour,
        width: width as usize,
        indent: INDENT,
    }
}

/// The knob rows, the pad's and then the selected sound's.
pub open spec fn knob_rows_spec(t: &ActiveTheme, p: PanelInput, width: int) -> Seq<Seq<(Seq<char>, Style)>> {
    let pad = p.pad_knobs.unwrap()@;
    rows_upto(&pad_panel_spec(p, width), t, p.title@, pad, pad.len() as int) + if layer_count(p.layer) > 0 {
        let l = p.layer.unwrap();
        rows_upto(&layer_panel_spec(p, width), t, l.title@, l.knobs@, l.knobs@.len() as int)
    } else {
        Seq::empty()
    }
}

/// Every knob is narrow enough to add up without overflow.
pub open spec fn knobs_fit(knobs: Seq<Knob>) -> bool {
    forall|i: int| 0 <= i < knobs.len() ==> knob_width_spec(#[trigger] &knobs[i]) <= usize::MAX / 4
}

/// The pad panel, `height` rows at most: nothing for no room; the one line
/// that names the pad when it is narrower than its knobs; the key-with-no-
/// zone lines where there is no pad; and otherwise the pad's knobs, the
/// sound's under them and the sound list (`sounds`), scrolled so that the
/// row with the control under the cursor is on the screen.
#[verifier::rlimit(40)]
pub fn panel_lines(t: &ActiveTheme, p: &PanelInput, sounds: Vec<Vec<Span>>, width: usize, height: usize) -> (lines: Vec<
    Vec<Span>,
>)
    requires
        width <= usize::MAX / 4,
        match p.pad_knobs {
            Some(k) => k@.len() >= 1 && knobs_fit(k@),
            None => true,
        },
        match p.layer {
            Some(l) => knobs_fit(l.knobs@),
            None => true,
        },
    ensures
        height == 0 ==> lines@.len() == 0,
        height > 0 && width < MIN_PANEL_W ==> lines@.len() == 1 && span_views(lines@[0]@)
            == narrow_line_spec(t, p.focused, p.title@, p.count as nat, width as int),
        height > 0 && width >= MIN_PANEL_W && p.pad_knobs is None ==> {
            &&& lines@.len() == no_zone_spec(t, p.focused, p.pad_label@, width as int, height as int).len()
            &&& forall|i: int|
                0 <= i < lines@.len() ==> span_views(#[trigger] lines@[i]@) == no_zone_spec(
                    t,
                    p.focused,
                    p.pad_label@,
                    width as int,
                    height as int,
                )[i]
        },
        height > 0 && width >= MIN_PANEL_W && p.pad_knobs is Some ==> {
            let pad = p.pad_knobs.unwrap()@;
            let knob_rows = knobs_len(pad, p.layer, width as int);
            let total = knob_rows + sounds@.len();
            let row = panel_cursor_row(pad, p.layer, p.knob as int, width as int);
            let start = if height < total { window_start(total, height as int, row) } else { 0 };
            &&& lines@.len() == (if height < total { height as int } else { total })
            &&& 0 <= start <= row < start + lines@.len()
            &&& forall|k: int|
                0 <= k < lines@.len() && start + k >= knob_rows ==> #[trigger] lines@[k] == sounds@[start + k
                    - knob_rows]
            &&& knob_rows_spec(t, *p, width as int).len() == knob_rows
            &&& forall|k: int|
                0 <= k < lines@.len() && start + k < knob_rows ==> span_views(#[trigger] lines@[k]@)
                    == knob_rows_spec(t, *p, width as int)[start + k]
        },
{
    if height == 0 {
        return Vec::new();
    }
    if width < MIN_PANEL_W {
        proof { reveal_strlit(" "); }
        assert(" "@ =~= seq![' ']);
        let s = concatenated(" ", p.title.as_str());
        let s = concatenated(s.as_str(), " \u{00b7} ");
        let n = decimal(p.count);
        let s = concatenated(s.as_str(), n.as_str());
        let s = concatenated(s.as_str(), " sounds");
        let mut lines: Vec<Vec<Span>> = Vec::new();
        lines.push(vec![Span::styled(clip_text(s.as_str(), width), heading(t, p.focused))]);
        assert(span_views(lines@[0]@) =~= narrow_line_spec(t, p.focused, p.title@, p.count as nat, width as int));
        return lines;
    }
    let pad = match &p.pad_knobs {
        Some(k) => k,
        None => {
            return no_zone_lines(t, p.focused, p.pad_label.as_str(), width, height);
        },
    };
    let pad_n = pad.len();
    let layer_n = match &p.layer {
        Some(l) => l.knobs.len(),
        None => 0,
    };
    let cursor = if p.knob < pad_n {
        p.knob
    } else if layer_n == 0 {
        pad_n - 1
    } else if p.knob - pad_n < layer_n - 1 {
        p.knob
    } else {
        pad_n + (layer_n - 1)
    };
    assert(cursor == panel_cursor(p.knob as int, pad_n as int, layer_n as int));
    let on_layer = cursor >= pad_n;
    let panel = Panel {
        cursor: if cursor < pad_n - 1 { cursor } else { pad_n - 1 },
        active: !on_layer && p.focused,
        locked: p.locked,
        focused: p.focused,
        colour: p.colour,
        width,
        indent: INDENT,
    };
    assert(panel == pad_panel_spec(*p, width as int));
    let (mut rows, pad_row) = panel.rows(t, p.title.as_str(), pad);
    let ghost pad_views = rows_upto(&pad_panel_spec(*p, width as int), t, p.title@, pad@, pad@.len() as int);
    proof {
        lemma_placed_rows(widths(pad@), INDENT as int, width as int, pad@.len() as int);
        lemma_placed_monotone(widths(pad@), INDENT as int, width as int, panel.cursor as int + 1, pad@.len() as int);
    }
    let pad_rows_len = rows.len();
    let mut cursor_row = if on_layer { rows.len() } else { pad_row };
    match &p.layer {
        Some(l) => {
            if l.knobs.len() > 0 {
                let panel = Panel {
                    cursor: if cursor >= pad_n { cursor - pad_n } else { 0 },
                    active: on_layer && p.focused,
                    locked: p.locked,
                    focused: p.focused,
                    colour: p.colour,
                    width,
                    indent: INDENT,
                };
                assert(panel == layer_panel_spec(*p, width as int));
                let (mut layer_rows, layer_row) = panel.rows(t, l.title.as_str(), &l.knobs);
                let ghost layer_views = rows_upto(&layer_panel_spec(*p, width as int), t, l.title@, l.knobs@, l.knobs@.len() as int);
                let ghost pad_part = rows@;
                let ghost layer_part = layer_rows@;
                proof {
                    let ws = widths(l.knobs@);
                    lemma_placed_rows(ws, INDENT as int, width as int, l.knobs@.len() as int);
                    lemma_placed_monotone(ws, INDENT as int, width as int, panel.cursor as int + 1, l.knobs@.len() as int);
                }
                let layer_len = layer_rows.len();
                rows.append(&mut layer_rows);
                let now = rows.len();
                assert(now == pad_rows_len + layer_len);
                proof {
                    assert(rows@ == pad_part + layer_part);
                    assert forall|r: int| 0 <= r < rows@.len() implies span_views(#[trigger] rows@[r]@)
                        == knob_rows_spec(t, *p, width as int)[r] by {
                        if r < pad_part.len() {
                            assert(rows@[r] == pad_part[r]);
                        } else {
                            assert(rows@[r] == layer_part[r - pad_part.len()]);
                        }
                    }
                }
                if on_layer {
                    cursor_row = pad_rows_len + layer_row;
                }
            }
        },
        None => {},
    }
    let knob_rows = rows.len();
    assert(knob_rows == knobs_len(pad@, p.layer, width as int));
    assert(knob_rows_spec(t, *p, width as int).len() == knob_rows);
    assert(forall|r: int| 0 <= r < knob_rows ==> span_views(#[trigger] rows@[r]@) == knob_rows_spec(t, *p, width as int)[r]);
    assert(cursor_row == panel_cursor_row(pad@, p.layer, p.knob as int, width as int));
    let ghost before = rows@;
    let mut sounds = sounds;
    let ghost sound_rows = sounds@;
    rows.append(&mut sounds);
    assert(rows@ == before + sound_rows);
    let total = rows.len();
    proof {
        if (height as int) < total {
            crate::knobs::lemma_window_keeps_cursor(total as int, height as int, cursor_row as int);
        }
    }
    window(rows, height, cursor_row)
}

} // verus!
