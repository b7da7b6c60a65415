//! The overlays: the space menu's tabs, its actions laid out in columns
//! and its help list, the add-instrument and add-effect menus, the confirm
//! box, the filename prompt, and where on the screen each one sits.

use vstd::prelude::*;

use crate::style::{bolded, colors, on, Color, Style};
use crate::text::{left_aligned, left_aligned_spec, repeat_char, repeated, span_views, Span};
use crate::theme::{self, active, lighten_spec, ActiveTheme};

verus! {

/// The house's fixed highlight, which the row under a menu's cursor is
/// written in whatever the theme.
pub open spec fn highlight_spec() -> Color {
    Color::Rgb(88, 160, 176)
}

pub fn highlight() -> (c: Color)
    ensures
        c == highlight_spec(),
{
    Color::Rgb(88, 160, 176)
}

/// The fixed record red the confirm box is framed in.
pub open spec fn alarm_red_spec() -> Color {
    Color::Rgb(180, 50, 50)
}

pub fn alarm_red() -> (c: Color)
    ensures
        c == alarm_red_spec(),
{
    Color::Rgb(180, 50, 50)
}

/// The overlays' background: the theme's, a little lighter.
pub open spec fn overlay_spec(t: &ActiveTheme) -> Color {
    lighten_spec(active(t).bg, 4)
}

/// A rectangle of cells.
#[derive(Clone, Copy, Debug, PartialEq, Eq, Structural)]
pub struct Rect {
    pub x: u16,
    pub y: u16,
    pub w: u16,
    pub h: u16,
}

/// The space menu's rows on a screen `height` tall: ten at most, two rows
/// short of the screen, sitting one row above its bottom.
pub open spec fn space_menu_spec(width: int, height: int) -> Rect {
    let h = if height - 2 < 10 { if height >= 2 { height - 2 } else { 0 } } else { 10 };
    let y = if height - (h + 1) > 0 { height - (h + 1) } else { 0 };
    Rect { x: 0, y: y as u16, w: width as u16, h: h as u16 }
}

/// Where the space menu sits: along the bottom of the screen, full width.
/// Its frame never reaches the last row.
pub fn space_menu_area(width: u16, height: u16) -> (r: Rect)
    ensures
        r == space_menu_spec(width as int, height as int),
        height >= 1 ==> r.y + r.h < height,
{
    let h: u16 = if height >= 12 { 10 } else if height >= 2 { height - 2 } else { 0 };
    let y: u16 = if height > h + 1 { height - (h + 1) } else { 0 };
    Rect { x: 0, y, w: width, h }
}

/// The style of a menu's selected name: bright amber, bold.
pub open spec fn picked(t: &ActiveTheme) -> Style {
    bolded(colors(active(t).amber_bright, active(t).bg))
}

/// The space menu's tab line: the section showing is bright, the other
/// dim, and the keys after them.
pub open spec fn space_tabs_spec(t: &ActiveTheme, actions: bool) -> Seq<(Seq<char>, Style)> {
    let dim = colors(active(t).dim, active(t).bg);
    seq![
        (" [actions] "@, if actions { picked(t) } else { dim }),
        (" [help] "@, if actions { dim } else { picked(t) }),
        ("  tab\u{2192}switch  esc\u{2192}close  +/-\u{2192}bpm"@, dim),
    ]
}

pub fn space_tabs(t: &ActiveTheme, actions: bool) -> (spans: Vec<Span>)
    ensures
        span_views(spans@) == space_tabs_spec(t, actions),
{
    let on_style = theme::amber_bright(t).bold();
    let spans = vec![
        Span::styled(String::from_str(" [actions] "), if actions { on_style } else { theme::dim(t) }),
        Span::styled(String::from_str(" [help] "), if actions { theme::dim(t) } else { on_style }),
        Span::styled(String::from_str("  tab\u{2192}switch  esc\u{2192}close  +/-\u{2192}bpm"), theme::dim(t)),
    ];
    assert(span_views(spans@) =~= space_tabs_spec(t, actions));
    spans
}

/// One action of the space menu: its key and what it does.
pub struct MenuItem {
    pub key: String,
    pub label: String,
}

/// The style of the name under a menu's cursor: the fixed highlight over
/// the overlay, bold.
pub open spec fn chosen(t: &ActiveTheme) -> Style {
    bolded(colors(highlight_spec(), overlay_spec(t)))
}

/// One action's cell: the caret, the key in seven columns, the name in
/// twelve, and the air that makes the column thirty wide.
pub open spec fn action_cell_spec(t: &ActiveTheme, item: MenuItem, here: bool) -> Seq<(Seq<char>, Style)> {
    let label_s = if here { chosen(t) } else { colors(active(t).normal, active(t).bg) };
    let key_s = if here { picked(t) } else { colors(active(t).amber, active(t).bg) };
    seq![
        (seq![if here { '\u{25B6}' } else { ' ' }, ' '], label_s),
        (left_aligned_spec(item.key@, 7), key_s),
        (left_aligned_spec(item.label@, 12), label_s),
        (repeated(' ', 9), on(overlay_spec(t))),
    ]
}

/// How many columns `n` actions take in `rows` rows.
pub open spec fn menu_cols(n: int, rows: int) -> int {
    if rows > 0 { (n + rows - 1) / rows } else { 1 }
}

/// Row `r` of the actions, filled top to bottom and then left to right: the
/// cells of the actions at `r`, `r + rows`, `r + 2 rows` and on.
pub open spec fn action_row_spec(t: &ActiveTheme, items: Seq<MenuItem>, cursor: int, rows: int, r: int) -> Seq<
    (Seq<char>, Style),
> {
    Seq::new(
        menu_cols(items.len() as int, rows) as nat,
        |c: int|
            if c * rows + r < items.len() {
                action_cell_spec(t, items[c * rows + r], c * rows + r == cursor)
            } else {
                Seq::empty()
            },
    ).flatten()
}

/// The actions in `rows` rows: one line for each row that has an action on
/// it.
pub open spec fn action_lines_spec(t: &ActiveTheme, items: Seq<MenuItem>, cursor: int, rows: int) -> Seq<
    Seq<(Seq<char>, Style)>,
> {
    let shown = if rows < items.len() { rows } else { items.len() as int };
    Seq::new(shown as nat, |r: int| action_row_spec(t, items, cursor, rows, r))
}

fn action_cell(t: &ActiveTheme, item: &MenuItem, here: bool) -> (spans: Vec<Span>)
    ensures
        span_views(spans@) == action_cell_spec(t, *item, here),
{
    let label_s = if here {
        Style::new().fg(highlight()).bg(theme::overlay_bg(t)).bold()
    } else {
        theme::normal(t)
    };
    let key_s = if here { theme::amber_bright(t).bold() } else { theme::amber(t) };
    let mut mark = String::new();
    crate::text::push_char(&mut mark, if here { '\u{25B6}' } else { ' ' });
    crate::text::push_char(&mut mark, ' ');
    assert(mark@ =~= seq![if here { '\u{25B6}' } else { ' ' }, ' ']);
    let spans = vec![
        Span::styled(mark, label_s),
        Span::styled(left_aligned(item.key.as_str(), 7), key_s),
        Span::styled(left_aligned(item.label.as_str(), 12), label_s),
        Span::styled(repeat_char(' ', 9), Style::new().bg(theme::overlay_bg(t))),
    ];
    assert(span_views(spans@) =~= action_cell_spec(t, *item, here));
    spans
}

/// The space menu's actions, in columns thirty wide that fill top to bottom
/// and then left to right, for a list `rows` rows tall.
pub fn action_lines(t: &ActiveTheme, items: &Vec<MenuItem>, cursor: usize, rows: usize) -> (lines: Vec<Vec<Span>>)
    ensures
        lines@.len() == action_lines_spec(t, items@, cursor as int, rows as int).len(),
        forall|r: int|
            0 <= r < lines@.len() ==> span_views(#[trigger] lines@[r]@) == action_lines_spec(
                t,
                items@,
                cursor as int,
                rows as int,
            )[r],
{
    let n = items.len();
    let cols: usize = if rows == 0 {
        1
    } else if n % rows > 0 {
        assert(n / rows < usize::MAX) by (nonlinear_arith)
            requires
                rows > 0,
                n % rows > 0,
                n <= usize::MAX,
        {
        }
        n / rows + 1
    } else {
        n / rows
    };
    proof {
        if rows > 0 {
            assert(cols == menu_cols(n as int, rows as int)) by (nonlinear_arith)
                requires
                    rows > 0,
                    cols == n / rows + if n % rows > 0 { 1int } else { 0int },
            {
            }
        }
    }
    let shown = if rows < n { rows } else { n };
    let mut lines: Vec<Vec<Span>> = Vec::new();
    let mut r: usize = 0;
    while r < shown
        invariant
            shown == (if rows < n { rows } else { n }),
            n == items@.len(),
            cols == menu_cols(n as int, rows as int),
            r <= shown,
            lines@.len() == r,
            forall|k: int|
                0 <= k < r ==> span_views(#[trigger] lines@[k]@) == action_row_spec(
                    t,
                    items@,
                    cursor as int,
                    rows as int,
                    k,
                ),
        decreases shown - r,
    {
        let mut spans: Vec<Span> = Vec::new();
        let ghost cells = Seq::new(
            cols as nat,
            |c: int|
                if c * rows + r < items@.len() {
                    action_cell_spec(t, items@[c * rows + r], c * rows + r == cursor)
                } else {
                    Seq::empty()
                },
        );
        let mut c: usize = 0;
        while c < cols
            invariant
                n == items@.len(),
                r < shown <= rows,
                shown <= n,
                c <= cols,
                cols == menu_cols(n as int, rows as int),
                cells == Seq::new(
                    cols as nat,
                    |c: int|
                        if c * rows + r < items@.len() {
                            action_cell_spec(t, items@[c * rows + r], c * rows + r == cursor)
                        } else {
                            Seq::empty()
                        },
                ),
                span_views(spans@) == cells.subrange(0, c as int).flatten(),
            decreases cols - c,
        {
            let ghost before = span_views(spans@);
            proof {
                cells.subrange(0, c as int).lemma_flatten_push(cells[c as int]);
                assert(cells.subrange(0, c as int).push(cells[c as int]) =~= cells.subrange(0, c as int + 1));
            }
            if c <= (n - r - 1) / rows {
                assert(c * rows + r < n) by (nonlinear_arith)
                    requires
                        rows > 0,
                        r < n,
                        c as int <= (n as int - r as int - 1) / (rows as int),
                {
                }
                let idx = c * rows + r;
                let mut cell = action_cell(t, &items[idx], idx == cursor);
                let ghost piece = span_views(cell@);
                spans.append(&mut cell);
                assert(span_views(spans@) =~= before + piece);
            } else {
                assert(c * rows + r >= n) by (nonlinear_arith)
                    requires
                        rows > 0,
                        r < n,
                        c as int > (n as int - r as int - 1) / (rows as int),
                {
                }
                assert(before + Seq::<(Seq<char>, Style)>::empty() =~= before);
            }
            c += 1;
        }
        proof {
            assert(cells.subrange(0, cols as int) =~= cells);
        }
        lines.push(spans);
        r += 1;
    }
    lines
}

/// The space menu's list area, under its tab line, inside its frame.
pub open spec fn space_list_spec(width: int, height: int) -> Rect {
    let f = space_menu_spec(width, height);
    let inner_h = if f.h >= 2 { f.h - 2 } else { 0 };
    Rect {
        x: 1,
        y: (f.y + 2) as u16,
        w: (if width >= 2 { width - 2 } else { 0 }) as u16,
        h: (if inner_h >= 1 { inner_h - 1 } else { 0 }) as u16,
    }
}

pub fn space_list_area(width: u16, height: u16) -> (r: Rect)
    ensures
        r == space_list_spec(width as int, height as int),
{
    let f = space_menu_area(width, height);
    let inner_h = if f.h >= 2 { f.h - 2 } else { 0 };
    Rect {
        x: 1,
        y: f.y + 2,
        w: if width >= 2 { width - 2 } else { 0 },
        h: if inner_h >= 1 { inner_h - 1 } else { 0 },
    }
}

/// A help topic: its title and what it says.
pub struct Topic {
    pub title: String,
    pub desc: String,
}

/// One help topic's line: the caret, the title in fourteen columns, and
/// what it says, dim.
pub open spec fn topic_spec(t: &ActiveTheme, topic: Topic, here: bool) -> Seq<(Seq<char>, Style)> {
    let s = if here { chosen(t) } else { colors(active(t).normal, active(t).bg) };
    seq![
        (if here { seq!['\u{25B6}', ' '] } else { seq![' ', ' '] }, s),
        (left_aligned_spec(topic.title@, 14), s),
        (topic.desc@, colors(active(t).dim, active(t).bg)),
    ]
}

/// The help list, one line a topic.
pub fn help_lines(t: &ActiveTheme, topics: &Vec<Topic>, cursor: usize) -> (lines: Vec<Vec<Span>>)
    ensures
        lines@.len() == topics@.len(),
        forall|i: int|
            0 <= i < lines@.len() ==> span_views(#[trigger] lines@[i]@) == topic_spec(t, topics@[i], i == cursor),
{
    proof {
        reveal_strlit("\u{25B6} ");
        reveal_strlit("  ");
    }
    let mut lines: Vec<Vec<Span>> = Vec::new();
    let mut i: usize = 0;
    while i < topics.len()
        invariant
            i <= topics@.len(),
            lines@.len() == i,
            "\u{25B6} "@ =~= seq!['\u{25B6}', ' '],
            "  "@ =~= seq![' ', ' '],
            forall|j: int|
                0 <= j < i ==> span_views(#[trigger] lines@[j]@) == topic_spec(t, topics@[j], j == cursor),
        decreases topics@.len() - i,
    {
        let here = i == cursor;
        let s = if here {
            Style::new().fg(highlight()).bg(theme::overlay_bg(t)).bold()
        } else {
            theme::normal(t)
        };
        let topic = &topics[i];
        let line = vec![
            Span::styled(String::from_str(if here { "\u{25B6} " } else { "  " }), s),
            Span::styled(left_aligned(topic.title.as_str(), 14), s),
            Span::styled(topic.desc.clone(), theme::dim(t)),
        ];
        assert(span_views(line@) =~= topic_spec(t, topics@[i as int], here));
        lines.push(line);
        i += 1;
    }
    lines
}

/// Where a centred box `w` by `h` sits on a `width` by `height` screen.
pub open spec fn centred_spec(width: int, height: int, w: int, h: int) -> (int, int) {
    (
        (if width >= w { width - w } else { 0 }) / 2,
        (if height >= h { height - h } else { 0 }) / 2,
    )
}

/// The add-instrument menu's frame and the area inside it: forty wide,
/// three rows an instrument and three for the frame, centred, and no taller
/// than two rows short of the screen.
pub open spec fn instrument_modal_spec(width: int, height: int, count: int) -> (Rect, Rect) {
    let want = count * 3 + 3;
    let room = if height >= 2 { height - 2 } else { 0 };
    let h = if want < room { want } else { room };
    let (x, y) = centred_spec(width, height, 40, h);
    (
        Rect { x: x as u16, y: y as u16, w: 40, h: h as u16 },
        Rect { x: (x + 2) as u16, y: (y + 2) as u16, w: 36, h: (h - 3) as u16 },
    )
}

pub fn instrument_modal_area(width: u16, height: u16, count: u16) -> (r: (Rect, Rect))
    requires
        height >= 5,
        count <= 1000,
    ensures
        r == instrument_modal_spec(width as int, height as int, count as int),
{
    let want = count * 3 + 3;
    let room = height - 2;
    let h = if want < room { want } else { room };
    let x = (if width >= 40 { width - 40 } else { 0 }) / 2;
    let y = (height - h) / 2;
    (Rect { x, y, w: 40, h }, Rect { x: x + 2, y: y + 2, w: 36, h: h - 3 })
}

/// An instrument's name and what it is.
pub struct Choice {
    pub label: String,
    pub desc: String,
}

/// An instrument's three lines: the caret and its name, what it is under
/// that, and a blank line.
pub open spec fn choice_spec(t: &ActiveTheme, c: Choice, here: bool) -> Seq<Seq<(Seq<char>, Style)>> {
    let s = if here { picked(t) } else { colors(active(t).normal, active(t).bg) };
    seq![
        seq![(if here { seq!['\u{25B6}', ' '] } else { seq![' ', ' '] }, s), (c.label@, s)],
        seq![(seq![' ', ' ', ' ', ' '], on(active(t).bg)), (c.desc@, colors(active(t).dim, active(t).bg))],
        Seq::empty(),
    ]
}

/// The add-instrument menu's lines, three an instrument.
pub fn instrument_lines(t: &ActiveTheme, choices: &Vec<Choice>, cursor: usize) -> (lines: Vec<Vec<Span>>)
    requires
        choices@.len() * 3 <= usize::MAX,
    ensures
        lines@.len() == 3 * choices@.len(),
        forall|i: int, k: int|
            0 <= i < choices@.len() && 0 <= k < 3 ==> span_views(#[trigger] lines@[3 * i + k]@) == choice_spec(
                t,
                choices@[i],
                i == cursor,
            )[k],
{
    proof {
        reveal_strlit("\u{25B6} ");
        reveal_strlit("  ");
        reveal_strlit("    ");
    }
    let mut lines: Vec<Vec<Span>> = Vec::new();
    let mut i: usize = 0;
    while i < choices.len()
        invariant
            i <= choices@.len(),
            lines@.len() == 3 * i,
            "\u{25B6} "@ =~= seq!['\u{25B6}', ' '],
            "  "@ =~= seq![' ', ' '],
            "    "@ =~= seq![' ', ' ', ' ', ' '],
            forall|j: int, k: int|
                0 <= j < i && 0 <= k < 3 ==> span_views(#[trigger] lines@[3 * j + k]@) == choice_spec(
                    t,
                    choices@[j],
                    j == cursor,
                )[k],
        decreases choices@.len() - i,
    {
        let here = i == cursor;
        let s = if here { theme::amber_bright(t).bold() } else { theme::normal(t) };
        let c = &choices[i];
        let ghost want = choice_spec(t, choices@[i as int], here);
        let a = vec![
            Span::styled(String::from_str(if here { "\u{25B6} " } else { "  " }), s),
            Span::styled(c.label.clone(), s),
        ];
        let b = vec![
            Span::styled(String::from_str("    "), theme::bg(t)),
            Span::styled(c.desc.clone(), theme::dim(t)),
        ];
        assert(span_views(a@) =~= want[0]);
        assert(span_views(b@) =~= want[1]);
        assert(span_views(Seq::<Span>::empty()) =~= want[2]);
        lines.push(a);
        lines.push(b);
        lines.push(Vec::new());
        assert forall|j: int, k: int| 0 <= j < i + 1 && 0 <= k < 3 implies span_views(
            #[trigger] lines@[3 * j + k]@,
        ) == choice_spec(t, choices@[j], j == cursor)[k] by {
            if j == i {
                assert(3 * j + k == 3 * i + k);
            } else {
                assert(3 * j + k < 3 * i);
            }
        }
        i += 1;
    }
    lines
}

/// The confirm box's frame and the area inside it: six wider than the
/// message, held inside the screen but thirty at least; four rows;
/// centred.
pub open spec fn confirm_modal_spec(width: int, height: int, msg_len: int) -> (Rect, Rect) {
    let fit = if width >= 4 { width - 4 } else { 0 };
    let want = if msg_len + 6 < fit { msg_len + 6 } else { fit };
    let w = if want > 30 { want } else { 30 };
    let (x, y) = centred_spec(width, height, w, 4);
    (
        Rect { x: x as u16, y: y as u16, w: w as u16, h: 4 },
        Rect { x: (x + 2) as u16, y: (y + 1) as u16, w: (w - 4) as u16, h: 2 },
    )
}

/// Where the confirm box goes for a message `msg_len` bytes long.
pub fn confirm_modal_area(width: u16, height: u16, msg_len: u16) -> (r: (Rect, Rect))
    requires
        msg_len <= u16::MAX - 6,
    ensures
        r == confirm_modal_spec(width as int, height as int, msg_len as int),
{
    let fit = if width >= 4 { width - 4 } else { 0 };
    let want = if msg_len + 6 < fit { msg_len + 6 } else { fit };
    let w = if want > 30 { want } else { 30 };
    let x = (if width >= w { width - w } else { 0 }) / 2;
    let y = (if height >= 4 { height - 4 } else { 0 }) / 2;
    (Rect { x, y, w, h: 4 }, Rect { x: x + 2, y: y + 1, w: w - 4, h: 2 })
}

/// The confirm box's message.
pub fn confirm_lines(t: &ActiveTheme, msg: &str) -> (lines: Vec<Vec<Span>>)
    ensures
        lines@.len() == 1,
        span_views(lines@[0]@) == seq![(msg@, colors(active(t).normal, active(t).bg))],
{
    let line = vec![Span::styled(String::from_str(msg), theme::normal(t))];
    assert(span_views(line@) =~= seq![(msg@, colors(active(t).normal, active(t).bg))]);
    vec![line]
}

/// The filename prompt's frame and the area inside it: fifty wide, or four
/// short of the screen; five rows; centred.
pub open spec fn input_modal_spec(width: int, height: int) -> (Rect, Rect) {
    let fit = if width >= 4 { width - 4 } else { 0 };
    let w = if fit < 50 { fit } else { 50 };
    let (x, y) = centred_spec(width, height, w, 5);
    (
        Rect { x: x as u16, y: y as u16, w: w as u16, h: 5 },
        Rect { x: (x + 2) as u16, y: (y + 1) as u16, w: (w - 4) as u16, h: 3 },
    )
}

pub fn input_modal_area(width: u16, height: u16) -> (r: (Rect, Rect))
    requires
        width >= 8,
    ensures
        r == input_modal_spec(width as int, height as int),
{
    let fit = width - 4;
    let w = if fit < 50 { fit } else { 50 };
    let x = (width - w) / 2;
    let y = (if height >= 5 { height - 5 } else { 0 }) / 2;
    (Rect { x, y, w, h: 5 }, Rect { x: x + 2, y: y + 1, w: w - 4, h: 3 })
}

/// The fixed amber the typing cursor is drawn on.
pub open spec fn cursor_amber_spec() -> Color {
    Color::Rgb(150, 116, 20)
}

/// The prompt's lines: what is asked, what is typed before the cursor, the
/// cursor on the character under it (a block past the end), and the rest;
/// a blank line; and the two keys.
pub open spec fn input_spec(t: &ActiveTheme, save_as: bool, buf: Seq<char>, cursor: int) -> Seq<
    Seq<(Seq<char>, Style)>,
> {
    let at = if cursor < buf.len() { cursor } else { buf.len() as int };
    let typed = bolded(colors(active(t).amber_bright, active(t).bg));
    let under = if at == buf.len() { seq!['\u{2588}'] } else { seq![buf[at]] };
    let rest = if buf.len() - at > 1 { buf.subrange(at + 1, buf.len() as int) } else { Seq::empty() };
    seq![
        seq![
            (if save_as { "filename: "@ } else { "path: "@ }, colors(active(t).dim, active(t).bg)),
            (buf.subrange(0, at), typed),
            (under, Style { fg: Some(overlay_spec(t)), bg: Some(cursor_amber_spec()), ..Style::plain() }),
            (rest, typed),
        ],
        Seq::empty(),
        seq![
            ("  enter"@, colors(active(t).dim, active(t).bg)),
            (" confirm  "@, colors(active(t).muted, active(t).bg)),
            ("esc"@, colors(active(t).dim, active(t).bg)),
            (" cancel"@, colors(active(t).muted, active(t).bg)),
        ],
    ]
}

/// The filename prompt, for a buffer of plain ASCII with the cursor at
/// `cursor`.
pub fn input_lines(t: &ActiveTheme, save_as: bool, buf: &str, cursor: usize) -> (lines: Vec<Vec<Span>>)
    requires
        vstd::string::is_ascii(buf),
    ensures
        lines@.len() == 3,
        forall|i: int| 0 <= i < 3 ==> span_views(#[trigger] lines@[i]@) == input_spec(t, save_as, buf@, cursor as int)[i],
{
    let ghost want = input_spec(t, save_as, buf@, cursor as int);
    proof { reveal_strlit("\u{2588}"); }
    let n = crate::text::char_count(buf);
    let at = if cursor < n { cursor } else { n };
    let typed = theme::amber_bright(t).bold();
    let before = buf.substring_ascii(0, at);
    let under = if at == n {
        String::from_str("\u{2588}")
    } else {
        String::from_str(buf.substring_ascii(at, at + 1))
    };
    let rest = if n - at > 1 { buf.substring_ascii(at + 1, n) } else { "" };
    proof { reveal_strlit(""); }
    let first = vec![
        Span::styled(String::from_str(if save_as { "filename: " } else { "path: " }), theme::dim(t)),
        Span::styled(String::from_str(before), typed),
        Span::styled(under, Style::new().fg(theme::overlay_bg(t)).bg(Color::Rgb(150, 116, 20))),
        Span::styled(String::from_str(rest), typed),
    ];
    assert(under@ =~= (if at == n { seq!['\u{2588}'] } else { seq![buf@[at as int]] }));
    assert(rest@ =~= (if n - at > 1 { buf@.subrange(at + 1, n as int) } else { Seq::empty() }));
    assert(span_views(first@) =~= want[0]);
    let keys = vec![
        Span::styled(String::from_str("  enter"), theme::dim(t)),
        Span::styled(String::from_str(" confirm  "), theme::muted(t)),
        Span::styled(String::from_str("esc"), theme::dim(t)),
        Span::styled(String::from_str(" cancel"), theme::muted(t)),
    ];
    assert(span_views(keys@) =~= want[2]);
    assert(span_views(Seq::<Span>::empty()) =~= want[1]);
    vec![first, Vec::new(), keys]
}

/// The add-effect menu's frame and the area inside it: twenty-eight by ten,
/// centred.
pub open spec fn fx_menu_spec(width: int, height: int) -> (Rect, Rect) {
    let (x, y) = centred_spec(width, height, 28, 10);
    (
        Rect { x: x as u16, y: y as u16, w: 28, h: 10 },
        Rect { x: (x + 1) as u16, y: (y + 1) as u16, w: 26, h: 8 },
    )
}

pub fn fx_menu_area(width: u16, height: u16) -> (r: (Rect, Rect))
    ensures
        r == fx_menu_spec(width as int, height as int),
{
    let x = (if width >= 28 { width - 28 } else { 0 }) / 2;
    let y = (if height >= 10 { height - 10 } else { 0 }) / 2;
    (Rect { x, y, w: 28, h: 10 }, Rect { x: x + 1, y: y + 1, w: 26, h: 8 })
}

/// An effect's line on the add-effect menu: the caret, the column a check
/// mark would stand in, and its name.
pub open spec fn fx_item_spec(t: &ActiveTheme, label: Seq<char>, here: bool) -> Seq<(Seq<char>, Style)> {
    let s = if here { picked(t) } else { colors(active(t).normal, active(t).bg) };
    seq![
        (if here { seq!['\u{25B6}', ' '] } else { seq![' ', ' '] }, s),
        (seq![' ', ' '], colors(active(t).dim, active(t).bg)),
        (label, s),
    ]
}

pub fn fx_menu_lines(t: &ActiveTheme, labels: &Vec<String>, cursor: usize) -> (lines: Vec<Vec<Span>>)
    ensures
        lines@.len() == labels@.len(),
        forall|i: int|
            0 <= i < lines@.len() ==> span_views(#[trigger] lines@[i]@) == fx_item_spec(t, labels@[i]@, i == cursor),
{
    proof {
        reveal_strlit("\u{25B6} ");
        reveal_strlit("  ");
    }
    let mut lines: Vec<Vec<Span>> = Vec::new();
    let mut i: usize = 0;
    while i < labels.len()
        invariant
            i <= labels@.len(),
            lines@.len() == i,
            "\u{25B6} "@ =~= seq!['\u{25B6}', ' '],
            "  "@ =~= seq![' ', ' '],
            forall|j: int|
                0 <= j < i ==> span_views(#[trigger] lines@[j]@) == fx_item_spec(t, labels@[j]@, j == cursor),
        decreases labels@.len() - i,
    {
        let here = i == cursor;
        let s = if here { theme::amber_bright(t).bold() } else { theme::normal(t) };
        let line = vec![
            Span::styled(String::from_str(if here { "\u{25B6} " } else { "  " }), s),
            Span::styled(String::from_str("  "), theme::dim(t)),
            Span::styled(labels[i].clone(), s),
        ];
        assert(span_views(line@) =~= fx_item_spec(t, labels@[i as int]@, here));
        lines.push(line);
        i += 1;
    }
    lines
}

/// The overlays, one of which is drawn over the screen at a time.
#[derive(Clone, Copy, Debug, PartialEq, Eq, Structural)]
pub enum Overlay {
    Confirm,
    Input,
    Instrument,
    Space,
    FxMenu,
}

/// Which overlay is drawn when several are open: a question being asked
/// comes first, then the filename prompt, the instrument menu, the space
/// menu, and the effect menu last.
pub open spec fn on_top_spec(confirm: bool, input: bool, instrument: bool, space: bool, fx: bool) -> Option<Overlay> {
    if confirm {
        Some(Overlay::Confirm)
    } else if input {
        Some(Overlay::Input)
    } else if instrument {
        Some(Overlay::Instrument)
    } else if space {
        Some(Overlay::Space)
    } else if fx {
        Some(Overlay::FxMenu)
    } else {
        None
    }
}

pub fn overlay_shown(confirm: bool, input: bool, instrument: bool, space: bool, fx: bool) -> (o: Option<Overlay>)
    ensures
        o == on_top_spec(confirm, input, instrument, space, fx),
{
    if confirm {
        Some(Overlay::Confirm)
    } else if input {
        Some(Overlay::Input)
    } else if instrument {
        Some(Overlay::Instrument)
    } else if space {
        Some(Overlay::Space)
    } else if fx {
        Some(Overlay::FxMenu)
    } else {
        None
    }
}

} // verus!
