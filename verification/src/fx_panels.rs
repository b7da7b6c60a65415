//! The effect panels that are lists of numbers — the compressor, the delay,
//! the reverb and the tape: their controls in one column or two, scrolled
//! so the control under the cursor stays on the screen, each drawn as its
//! name and its value, greyed where the current mode does not use it and
//! in the warning colour where it is doing something alarming, and the
//! keys on the line under them.

use vstd::prelude::*;

use crate::fx::{alarm_style, cell_style, cell_style_spec};
use crate::style::{bolded, colors, Style};
use crate::text::{concatenated, left_aligned, left_aligned_spec, span_views, Span};
use crate::theme::{self, active, ActiveTheme};

verus! {

/// One control as its panel reads it: its name, its value as written,
/// whether the current mode uses it, and whether it is doing something
/// alarming.
pub struct ParamCell {
    pub name: String,
    pub value: String,
    pub live: bool,
    pub alarm: bool,
}

/// How a panel is drawn: the width its values take, and whether there is
/// room for two columns.
#[derive(Clone, Copy, Debug, PartialEq, Eq, Structural)]
pub struct ListShape {
    pub value_w: usize,
    pub two_columns: bool,
}

/// The control the cursor is on, inside the list.
pub open spec fn list_cursor(band: int, n: int) -> int {
    let last = if n >= 1 { n - 1 } else { 0 };
    if band < last { band } else { last }
}

/// How many rows `n` controls take in the columns there are.
pub open spec fn list_rows(n: int, two: bool) -> int {
    if two { (n + 1) / 2 } else { n }
}

/// The first row drawn: in one column, as far down as keeps the cursor on
/// the last of the rows there is room for; in two, the top.
pub open spec fn first_row(cursor: int, n: int, two: bool, head: int, h: int) -> int {
    let room = if h - (head + 1) >= 1 { h - (head + 1) } else { 1 };
    let rows = list_rows(n, two);
    let back = if cursor - (room - 1) > 0 { cursor - (room - 1) } else { 0 };
    let last = if rows >= 1 { rows - 1 } else { 0 };
    if two { 0 } else if back < last { back } else { last }
}

/// In one column, the control under the cursor is always among the rows
/// drawn, whenever the pane has a row for the list and one for the keys
/// under the lines over it.
pub proof fn lemma_one_column_keeps_cursor(band: int, n: int, head: int, h: int)
    requires
        n >= 1,
        band >= 0,
        head >= 0,
        h >= head + 2,
    ensures
        ({
            let cursor = list_cursor(band, n);
            let first = first_row(cursor, n, false, head, h);
            first <= cursor < first + rows_drawn(n, false, head, h, first)
        }),
{
}

/// How many rows are drawn from the first: the rest of the list, or as
/// many as leave a line for the keys.
pub open spec fn rows_drawn(n: int, two: bool, head: int, h: int, first: int) -> int {
    let rest = list_rows(n, two) - first;
    let fit = if h - head - 1 >= 0 { h - head - 1 } else { 0 };
    let rest = if rest >= 0 { rest } else { 0 };
    if rest < fit { rest } else { fit }
}

/// One control's two spans: the caret and its name in seven columns, then
/// its value in the panel's width.
pub open spec fn param_cell_spec(t: &ActiveTheme, c: ParamCell, here: bool, locked: bool, focused: bool, value_w: int) -> Seq<
    (Seq<char>, Style),
> {
    seq![
        (left_aligned_spec(seq![if here { '\u{25B8}' } else { ' ' }] + c.name@, 8), if here && focused {
            colors(active(t).amber_bright, active(t).bg)
        } else {
            colors(active(t).dim, active(t).bg)
        }),
        (left_aligned_spec(c.value@, value_w as nat), if c.alarm {
            colors(active(t).rec_active, active(t).bg)
        } else {
            cell_style_spec(t, here, locked, c.live, focused)
        }),
    ]
}

/// Row `r` of the list: the control in the first column, and in two
/// columns a gap and the control `rows` further on, where there is one.
pub open spec fn param_row_spec(
    t: &ActiveTheme,
    cells: Seq<ParamCell>,
    cursor: int,
    locked: bool,
    focused: bool,
    shape: ListShape,
    r: int,
) -> Seq<(Seq<char>, Style)> {
    let rows = list_rows(cells.len() as int, shape.two_columns);
    let w = shape.value_w as int;
    param_cell_spec(t, cells[r], r == cursor, locked, focused, w) + if shape.two_columns {
        seq![("  "@, colors(active(t).dim, active(t).bg))] + if rows + r < cells.len() {
            param_cell_spec(t, cells[rows + r], rows + r == cursor, locked, focused, w)
        } else {
            Seq::empty()
        }
    } else {
        Seq::empty()
    }
}

/// The keys' line: what they do while a control is held, and while not.
pub open spec fn keys_text(locked: bool) -> Seq<char> {
    if locked {
        "  held \u{00b7} h/l adjusts \u{00b7} H/L strides \u{00b7} esc lets go"@
    } else {
        "  j/k picks \u{00b7} h/l adjusts \u{00b7} H/L strides \u{00b7} enter holds"@
    }
}

/// The panel before it is cut to the pane: the lines over the list
/// (`head`), the rows in the window, and the keys when there is a line
/// left for them.
pub open spec fn param_all(
    t: &ActiveTheme,
    head: Seq<Seq<(Seq<char>, Style)>>,
    cells: Seq<ParamCell>,
    band: int,
    locked: bool,
    focused: bool,
    shape: ListShape,
    h: int,
) -> Seq<Seq<(Seq<char>, Style)>> {
    let n = cells.len() as int;
    let cursor = list_cursor(band, n);
    let first = first_row(cursor, n, shape.two_columns, head.len() as int, h);
    let drawn = rows_drawn(n, shape.two_columns, head.len() as int, h, first);
    let body = head + Seq::new(drawn as nat, |k: int| param_row_spec(t, cells, cursor, locked, focused, shape, first + k));
    if body.len() < h {
        body.push(seq![(keys_text(locked), colors(active(t).dim, active(t).bg))])
    } else {
        body
    }
}

/// The panel, `h` rows at most.
pub open spec fn param_spec(
    t: &ActiveTheme,
    head: Seq<Seq<(Seq<char>, Style)>>,
    cells: Seq<ParamCell>,
    band: int,
    locked: bool,
    focused: bool,
    shape: ListShape,
    h: int,
) -> Seq<Seq<(Seq<char>, Style)>> {
    let all = param_all(t, head, cells, band, locked, focused, shape, h);
    if h < all.len() { all.subrange(0, h) } else { all }
}

fn param_cell(t: &ActiveTheme, c: &ParamCell, here: bool, locked: bool, focused: bool, value_w: usize) -> (spans: Vec<Span>)
    ensures
        span_views(spans@) == param_cell_spec(t, *c, here, locked, focused, value_w as int),
{
    let mut lead = String::new();
    crate::text::push_char(&mut lead, if here { '\u{25B8}' } else { ' ' });
    let lead = concatenated(lead.as_str(), c.name.as_str());
    let spans = vec![
        Span::styled(left_aligned(lead.as_str(), 8), if here && focused { theme::amber_bright(t) } else { theme::dim(t) }),
        Span::styled(
            left_aligned(c.value.as_str(), value_w),
            if c.alarm { alarm_style(t) } else { cell_style(t, here, locked, c.live, focused) },
        ),
    ];
    assert(span_views(spans@) =~= param_cell_spec(t, *c, here, locked, focused, value_w as int));
    spans
}

fn param_row(
    t: &ActiveTheme,
    cells: &Vec<ParamCell>,
    cursor: usize,
    locked: bool,
    focused: bool,
    shape: ListShape,
    r: usize,
) -> (spans: Vec<Span>)
    requires
        r < list_rows(cells@.len() as int, shape.two_columns),
    ensures
        span_views(spans@) == param_row_spec(t, cells@, cursor as int, locked, focused, shape, r as int),
{
    let n = cells.len();
    let rows = if shape.two_columns { n / 2 + n % 2 } else { n };
    assert(rows == list_rows(n as int, shape.two_columns));
    let mut spans = param_cell(t, &cells[r], r == cursor, locked, focused, shape.value_w);
    let ghost first = span_views(spans@);
    if shape.two_columns {
        proof { reveal_strlit("  "); }
        spans.push(Span::styled(String::from_str("  "), theme::dim(t)));
        let ghost with_gap = span_views(spans@);
        assert(with_gap =~= first + seq![("  "@, colors(active(t).dim, active(t).bg))]);
        if r < n - rows {
            let mut more = param_cell(t, &cells[rows + r], rows + r == cursor, locked, focused, shape.value_w);
            let ghost m = span_views(more@);
            spans.append(&mut more);
            assert(span_views(spans@) =~= with_gap + m);
        } else {
            assert(with_gap =~= with_gap + Seq::<(Seq<char>, Style)>::empty());
        }
    } else {
        assert(first =~= first + Seq::<(Seq<char>, Style)>::empty());
    }
    spans
}

/// Where the list's window is: the cursor's control, the first row drawn,
/// and how many rows are drawn.
fn param_window(n: usize, band: usize, two: bool, head_len: usize, h: usize) -> (w: (usize, usize, usize))
    ensures
        w.0 == list_cursor(band as int, n as int),
        w.1 == first_row(w.0 as int, n as int, two, head_len as int, h as int),
        w.2 == rows_drawn(n as int, two, head_len as int, h as int, w.1 as int),
        w.1 + w.2 <= list_rows(n as int, two),
{
    let last = if n >= 1 { n - 1 } else { 0 };
    let cursor = if band < last { band } else { last };
    let rows = if two { n / 2 + n % 2 } else { n };
    assert(rows == list_rows(n as int, two));
    let room = if h >= 2 && h - 2 >= head_len { h - (head_len + 1) } else { 1 };
    let back = if cursor >= room - 1 { cursor - (room - 1) } else { 0 };
    let last_row = if rows >= 1 { rows - 1 } else { 0 };
    let first = if two { 0 } else if back < last_row { back } else { last_row };
    let rest = if rows >= first { rows - first } else { 0 };
    let fit = if h >= 1 && h - 1 >= head_len { h - head_len - 1 } else { 0 };
    let drawn = if rest < fit { rest } else { fit };
    (cursor, first, drawn)
}

/// The rows of the window, appended to `lines`.
fn push_rows(
    t: &ActiveTheme,
    lines: &mut Vec<Vec<Span>>,
    cells: &Vec<ParamCell>,
    cursor: usize,
    locked: bool,
    focused: bool,
    shape: ListShape,
    first: usize,
    drawn: usize,
)
    requires
        first + drawn <= list_rows(cells@.len() as int, shape.two_columns),
    ensures
        final(lines)@.len() == old(lines)@.len() + drawn,
        forall|j: int| 0 <= j < old(lines)@.len() ==> #[trigger] final(lines)@[j] == old(lines)@[j],
        forall|k: int|
            0 <= k < drawn ==> span_views(#[trigger] final(lines)@[old(lines)@.len() + k]@) == param_row_spec(
                t,
                cells@,
                cursor as int,
                locked,
                focused,
                shape,
                first + k,
            ),
{
    let ghost start = lines@;
    let mut k: usize = 0;
    while k < drawn
        invariant
            k <= drawn,
            first + drawn <= list_rows(cells@.len() as int, shape.two_columns),
            list_rows(cells@.len() as int, shape.two_columns) <= cells.len(),
            lines@.len() == start.len() + k,
            forall|j: int| 0 <= j < start.len() ==> #[trigger] lines@[j] == start[j],
            forall|j: int|
                0 <= j < k ==> span_views(#[trigger] lines@[start.len() + j]@) == param_row_spec(
                    t,
                    cells@,
                    cursor as int,
                    locked,
                    focused,
                    shape,
                    first + j,
                ),
        decreases drawn - k,
    {
        let row = param_row(t, cells, cursor, locked, focused, shape, first + k);
        lines.push(row);
        k += 1;
    }
}

/// One of the number panels, `h` rows at most, under the lines `head`.
pub fn param_lines(
    t: &ActiveTheme,
    head: Vec<Vec<Span>>,
    cells: &Vec<ParamCell>,
    band: usize,
    locked: bool,
    focused: bool,
    shape: ListShape,
    h: usize,
) -> (lines: Vec<Vec<Span>>)
    ensures
        lines@.len() == param_spec(t, head@.map_values(|l: Vec<Span>| span_views(l@)), cells@, band as int, locked, focused, shape, h as int).len(),
        forall|i: int|
            0 <= i < lines@.len() ==> span_views(#[trigger] lines@[i]@) == param_spec(
                t,
                head@.map_values(|l: Vec<Span>| span_views(l@)),
                cells@,
                band as int,
                locked,
                focused,
                shape,
                h as int,
            )[i],
{
    let ghost hv = head@.map_values(|l: Vec<Span>| span_views(l@));
    let ghost all = param_all(t, hv, cells@, band as int, locked, focused, shape, h as int);
    let head_len = head.len();
    let (cursor, first, drawn) = param_window(cells.len(), band, shape.two_columns, head_len, h);
    let mut lines = head;
    push_rows(t, &mut lines, cells, cursor, locked, focused, shape, first, drawn);
    let ghost body = hv + Seq::new(
        drawn as nat,
        |k: int| param_row_spec(t, cells@, cursor as int, locked, focused, shape, first + k),
    );
    assert(forall|j: int| 0 <= j < lines@.len() ==> span_views(#[trigger] lines@[j]@) == body[j]) by {
        assert forall|j: int| 0 <= j < lines@.len() implies span_views(#[trigger] lines@[j]@) == body[j] by {
            if j >= head_len {
                assert(span_views(lines@[head_len + (j - head_len)]@) == body[j]);
            }
        }
    }
    if lines.len() < h {
        let keys = if locked {
            "  held \u{00b7} h/l adjusts \u{00b7} H/L strides \u{00b7} esc lets go"
        } else {
            "  j/k picks \u{00b7} h/l adjusts \u{00b7} H/L strides \u{00b7} enter holds"
        };
        lines.push(vec![Span::styled(String::from_str(keys), theme::dim(t))]);
        assert(span_views(lines@[lines@.len() - 1]@) =~= seq![(keys_text(locked), colors(active(t).dim, active(t).bg))]);
    }
    assert(all.len() == lines@.len());
    assert(forall|j: int| 0 <= j < lines@.len() ==> span_views(#[trigger] lines@[j]@) == all[j]);
    lines.truncate(h);
    lines
}

/// One control of a MIDI effect: its name and its value as written.
pub struct MidiParam {
    pub name: String,
    pub shown: String,
}

/// The style of a MIDI effect's control: bright and bold under the cursor,
/// underlined too while it is held.
pub open spec fn midi_style(t: &ActiveTheme, here: bool, locked: bool) -> Style {
    let bright = bolded(colors(active(t).amber_bright, active(t).bg));
    if here && locked {
        Style { underlined: true, ..bright }
    } else if here {
        bright
    } else {
        colors(active(t).normal, active(t).bg)
    }
}

/// A MIDI effect's panel before it is cut to the pane: its name and what
/// it is, a blank, a line a control, a blank, and the keys.
pub open spec fn midi_all(t: &ActiveTheme, label: Seq<char>, bypass: bool, params: Seq<MidiParam>, cursor: int, locked: bool) -> Seq<
    Seq<(Seq<char>, Style)>,
> {
    let dim = colors(active(t).dim, active(t).bg);
    seq![
        seq![
            ("  "@ + label + " "@, bolded(colors(active(t).amber_bright, active(t).bg))),
            ("\u{00b7} midi \u{00b7} plays live and on playback"@, dim),
            (if bypass { "  \u{00b7} bypassed"@ } else { ""@ }, dim),
        ],
        Seq::empty(),
    ] + Seq::new(
        params.len(),
        |i: int|
            seq![
                (if i == cursor { " \u{25B6} "@ } else { "   "@ }, midi_style(t, i == cursor, locked)),
                (left_aligned_spec(params[i].name@, 8), midi_style(t, i == cursor, locked)),
                (params[i].shown@, midi_style(t, i == cursor, locked)),
            ],
    ) + seq![Seq::empty(), seq![("  j/k knob \u{00b7} h/l adjust \u{00b7} b bypass \u{00b7} esc back"@, dim)]]
}

/// A MIDI effect's panel, `h` rows at most.
pub open spec fn midi_spec(t: &ActiveTheme, label: Seq<char>, bypass: bool, params: Seq<MidiParam>, cursor: int, locked: bool, h: int) -> Seq<
    Seq<(Seq<char>, Style)>,
> {
    let all = midi_all(t, label, bypass, params, cursor, locked);
    if h < all.len() { all.subrange(0, h) } else { all }
}

pub fn midi_fx_lines(
    t: &ActiveTheme,
    label: &str,
    bypass: bool,
    params: &Vec<MidiParam>,
    cursor: usize,
    locked: bool,
    h: usize,
) -> (lines: Vec<Vec<Span>>)
    ensures
        lines@.len() == midi_spec(t, label@, bypass, params@, cursor as int, locked, h as int).len(),
        forall|i: int|
            0 <= i < lines@.len() ==> span_views(#[trigger] lines@[i]@) == midi_spec(
                t,
                label@,
                bypass,
                params@,
                cursor as int,
                locked,
                h as int,
            )[i],
{
    let ghost all = midi_all(t, label@, bypass, params@, cursor as int, locked);
    let name = concatenated("  ", label);
    let mut lines: Vec<Vec<Span>> = Vec::new();
    lines.push(vec![
        Span::styled(concatenated(name.as_str(), " "), theme::amber_bright(t).bold()),
        Span::styled(String::from_str("\u{00b7} midi \u{00b7} plays live and on playback"), theme::dim(t)),
        Span::styled(String::from_str(if bypass { "  \u{00b7} bypassed" } else { "" }), theme::dim(t)),
    ]);
    lines.push(Vec::new());
    assert(span_views(lines@[0]@) =~= all[0]);
    assert(span_views(lines@[1]@) =~= all[1]);
    let mut i: usize = 0;
    while i < params.len()
        invariant
            i <= params@.len(),
            all == midi_all(t, label@, bypass, params@, cursor as int, locked),
            all.len() == params@.len() + 4,
            lines@.len() == 2 + i,
            forall|j: int| 0 <= j < lines@.len() ==> span_views(#[trigger] lines@[j]@) == all[j],
        decreases params@.len() - i,
    {
        let here = i == cursor;
        let style = if here && locked {
            Style { underlined: true, ..theme::amber_bright(t).bold() }
        } else if here {
            theme::amber_bright(t).bold()
        } else {
            theme::normal(t)
        };
        let p = &params[i];
        let line = vec![
            Span::styled(String::from_str(if here { " \u{25B6} " } else { "   " }), style),
            Span::styled(left_aligned(p.name.as_str(), 8), style),
            Span::styled(p.shown.clone(), style),
        ];
        assert(span_views(line@) =~= all[2 + i]);
        lines.push(line);
        i += 1;
    }
    lines.push(Vec::new());
    lines.push(vec![Span::styled(
        String::from_str("  j/k knob \u{00b7} h/l adjust \u{00b7} b bypass \u{00b7} esc back"),
        theme::dim(t),
    )]);
    assert(span_views(lines@[lines@.len() - 2]@) =~= all[lines@.len() - 2]);
    assert(span_views(lines@[lines@.len() - 1]@) =~= all[lines@.len() - 1]);
    lines.truncate(h);
    lines
}


/// The five effects a track's chain can hold.
#[derive(Clone, Copy, Debug, PartialEq, Eq, Structural)]
pub enum FxKind {
    Eq,
    Compressor,
    Reverb,
    Delay,
    Tape,
}

/// What the effect pane shows.
#[derive(Clone, Copy, Debug, PartialEq, Eq, Structural)]
pub enum FxPanel {
    /// Nothing at all: no room, no track, or a slot that is not on the chain.
    Blank,
    /// The panel of the MIDI effect in this slot.
    Midi(usize),
    /// The line saying that no effect is open.
    NoneOpen,
    /// The panel of this kind of effect, for the slot at this index.
    Effect(FxKind, usize),
}

/// Which panel the pane shows. A MIDI effect that is open wins over an
/// audio one; an audio slot past the end of the chain shows nothing, as
/// does a pane with no room or no track under the cursor.
pub open spec fn fx_panel_spec(
    width: int,
    height: int,
    has_track: bool,
    midi_slot: Option<usize>,
    slot: Option<usize>,
    chain: Seq<FxKind>,
) -> FxPanel {
    if width == 0 || height == 0 || !has_track {
        FxPanel::Blank
    } else if midi_slot is Some {
        FxPanel::Midi(midi_slot->0)
    } else {
        match slot {
            None => FxPanel::NoneOpen,
            Some(i) => if i < chain.len() { FxPanel::Effect(chain[i as int], i) } else { FxPanel::Blank },
        }
    }
}

/// Which panel the effect pane shows, from what is open on the track under
/// the cursor and the kinds of effect on its chain.
pub fn fx_panel(
    width: usize,
    height: usize,
    has_track: bool,
    midi_slot: Option<usize>,
    slot: Option<usize>,
    chain: &Vec<FxKind>,
) -> (p: FxPanel)
    ensures
        p == fx_panel_spec(width as int, height as int, has_track, midi_slot, slot, chain@),
{
    if width == 0 || height == 0 || !has_track {
        return FxPanel::Blank;
    }
    if let Some(m) = midi_slot {
        return FxPanel::Midi(m);
    }
    match slot {
        None => FxPanel::NoneOpen,
        Some(i) => if i < chain.len() { FxPanel::Effect(chain[i], i) } else { FxPanel::Blank },
    }
}

/// The line the pane shows when no effect is open: where to go to open one.
pub fn none_open_line(t: &ActiveTheme) -> (spans: Vec<Span>)
    ensures
        span_views(spans@) == seq![(
            "  no effect open \u{2014} enter on a slot in [trk fx]"@,
            colors(active(t).dim, active(t).bg),
        )],
{
    let line = vec![Span::styled(
        String::from_str("  no effect open \u{2014} enter on a slot in [trk fx]"),
        theme::dim(t),
    )];
    assert(span_views(line@) =~= seq![(
        "  no effect open \u{2014} enter on a slot in [trk fx]"@,
        colors(active(t).dim, active(t).bg),
    )]);
    line
}

} // verus!
