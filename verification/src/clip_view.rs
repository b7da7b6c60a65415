//! The clip view's own text: the tab line over it, and the piano roll's
//! settings page.

use vstd::prelude::*;

use crate::style::{bolded, colors, on, Color, Style};
use crate::text::{concatenated, decimal, decimal_spec, left_aligned, left_aligned_spec, span_views, Span};
use crate::theme::{self, active, ActiveTheme};

verus! {

/// The upper-case form of a text, as `str::to_uppercase` gives it.
pub uninterp spec fn uppercased(text: Seq<char>) -> Seq<char>;

/// Calls `str::to_uppercase`, which maps each character to its upper-case
/// form by the Unicode tables; the result is named, not described.
#[verifier::external_body]
fn uppercase(text: &str) -> (s: String)
    ensures
        s@ == uppercased(text@),
{
    text.to_uppercase()
}

/// A tab: its label, and whether it is the one showing with the keys in
/// its half of the view.
pub struct Tab {
    pub label: String,
    pub active: bool,
}

/// The clip being edited, as the tab line names it: its track, its number
/// and how many the track has, and the edit mode's sub-mode when it is on.
pub struct ClipInfo {
    pub track: String,
    pub number: u64,
    pub total: u64,
    pub edit: Option<String>,
}

/// The step grid, as the tab line names it: its track, where its cursor
/// is, and whether a knob is held.
pub struct SeqInfo {
    pub track: Option<String>,
    pub band: String,
    pub locked: bool,
}

/// A tab's style: bright and bold where it is showing, plain while the view
/// has the keys, dim otherwise.
pub open spec fn tab_style_spec(t: &ActiveTheme, active_tab: bool, focused: bool) -> Style {
    if active_tab {
        bolded(colors(active(t).amber_bright, active(t).bg))
    } else if focused {
        colors(active(t).normal, active(t).bg)
    } else {
        colors(active(t).dim, active(t).bg)
    }
}

/// Tabs as the line draws them: each label in brackets, then a space.
pub open spec fn tabs_spec(t: &ActiveTheme, tabs: Seq<Tab>, focused: bool) -> Seq<(Seq<char>, Style)> {
    Seq::new(
        tabs.len(),
        |i: int|
            seq![
                ("["@ + tabs[i].label@ + "]"@, tab_style_spec(t, tabs[i].active, focused)),
                (" "@, on(active(t).bg)),
            ],
    ).flatten()
}

/// The bold amber the edit and step-grid flags are written in.
pub open spec fn flag_style(t: &ActiveTheme) -> Style {
    Style { fg: Some(active(t).amber), bold: true, ..Style::plain() }
}

/// A track's name as the tab line writes it: in upper case, or, where the
/// caller has already cased it, as given.
pub open spec fn drawn_name(name: Seq<char>, upper: bool) -> Seq<char> {
    if upper { uppercased(name) } else { name }
}

/// What the tab line says of the clip being edited.
pub open spec fn clip_part_spec(t: &ActiveTheme, clip: Option<ClipInfo>, upper: bool) -> Seq<(Seq<char>, Style)> {
    match clip {
        Some(c) => seq![(
            " "@ + drawn_name(c.track@, upper) + " \u{00B7} clip "@ + decimal_spec(c.number as nat) + "/"@ + decimal_spec(
                c.total as nat,
            ),
            colors(active(t).normal, active(t).bg),
        )] + (match c.edit {
            Some(e) => seq![(" [EDIT:"@ + e@ + "]"@, flag_style(t))],
            None => Seq::empty(),
        }),
        None => Seq::empty(),
    }
}

/// What the tab line says of the step grid, when it is showing.
pub open spec fn grid_part_spec(t: &ActiveTheme, grid: Option<SeqInfo>, upper: bool) -> Seq<(Seq<char>, Style)> {
    match grid {
        Some(g) => (match g.track {
            Some(name) => seq![(" "@ + drawn_name(name@, upper) + " \u{00B7} seq"@, colors(active(t).normal, active(t).bg))],
            None => Seq::empty(),
        }) + seq![(" [SEQ:"@ + g.band@ + (if g.locked { " hold"@ } else { ""@ }) + "]"@, flag_style(t))],
        None => Seq::empty(),
    }
}

/// The tab line: the effect panel's mark and tabs, a rule, the clip tabs,
/// then what is being edited — the clip, with its edit mode when that is
/// on, and the step grid's band and hold when the grid is showing.
pub open spec fn tab_line_spec(
    t: &ActiveTheme,
    focused: bool,
    fx_tabs: Seq<Tab>,
    clip_tabs: Seq<Tab>,
    clip: Option<ClipInfo>,
    grid: Option<SeqInfo>,
    upper: bool,
) -> Seq<(Seq<char>, Style)> {
    let lead = seq![
        (seq!['\u{00B3}'], if focused { colors(active(t).amber_bright, active(t).bg) } else { colors(active(t).dim, active(t).bg) }),
        (seq![' '], on(active(t).bg)),
    ];
    let rule = seq![(" \u{2502} "@, colors(active(t).border, active(t).bg))];
    lead + tabs_spec(t, fx_tabs, focused) + rule + tabs_spec(t, clip_tabs, focused) + clip_part_spec(t, clip, upper)
        + grid_part_spec(t, grid, upper)
}

fn push_tabs(t: &ActiveTheme, spans: &mut Vec<Span>, tabs: &Vec<Tab>, focused: bool)
    ensures
        span_views(final(spans)@) == span_views(old(spans)@) + tabs_spec(t, tabs@, focused),
{
    proof { reveal_strlit(" "); }
    let ghost start = span_views(spans@);
    let ghost parts = Seq::new(
        tabs@.len(),
        |i: int|
            seq![
                ("["@ + tabs@[i].label@ + "]"@, tab_style_spec(t, tabs@[i].active, focused)),
                (" "@, on(active(t).bg)),
            ],
    );
    let mut i: usize = 0;
    while i < tabs.len()
        invariant
            i <= tabs@.len(),
            parts == Seq::new(
                tabs@.len(),
                |i: int|
                    seq![
                        ("["@ + tabs@[i].label@ + "]"@, tab_style_spec(t, tabs@[i].active, focused)),
                        (" "@, on(active(t).bg)),
                    ],
            ),
            span_views(spans@) == start + parts.subrange(0, i as int).flatten(),
        decreases tabs@.len() - i,
    {
        let tab = &tabs[i];
        let s = if tab.active {
            theme::amber_bright(t).bold()
        } else if focused {
            theme::normal(t)
        } else {
            theme::dim(t)
        };
        let ghost before = span_views(spans@);
        let label = concatenated("[", tab.label.as_str());
        spans.push(Span::styled(concatenated(label.as_str(), "]"), s));
        spans.push(Span::styled(String::from_str(" "), theme::bg(t)));
        proof {
            parts.subrange(0, i as int).lemma_flatten_push(parts[i as int]);
            assert(parts.subrange(0, i as int).push(parts[i as int]) =~= parts.subrange(0, i as int + 1));
            assert(span_views(spans@) =~= before + parts[i as int]);
        }
        i += 1;
    }
    proof {
        assert(parts.subrange(0, tabs@.len() as int) =~= parts);
    }
}

/// The clip view's tab line, with the track names written in upper case.
pub fn tab_line(
    t: &ActiveTheme,
    focused: bool,
    fx_tabs: &Vec<Tab>,
    clip_tabs: &Vec<Tab>,
    clip: &Option<ClipInfo>,
    grid: &Option<SeqInfo>,
) -> (spans: Vec<Span>)
    ensures
        span_views(spans@) == tab_line_spec(t, focused, fx_tabs@, clip_tabs@, *clip, *grid, true),
{
    tab_line_in(t, focused, fx_tabs, clip_tabs, clip, grid, true)
}

/// The clip view's tab line for track names already in the case they are
/// drawn in.
pub fn tab_line_cased(
    t: &ActiveTheme,
    focused: bool,
    fx_tabs: &Vec<Tab>,
    clip_tabs: &Vec<Tab>,
    clip: &Option<ClipInfo>,
    grid: &Option<SeqInfo>,
) -> (spans: Vec<Span>)
    ensures
        span_views(spans@) == tab_line_spec(t, focused, fx_tabs@, clip_tabs@, *clip, *grid, false),
{
    tab_line_in(t, focused, fx_tabs, clip_tabs, clip, grid, false)
}

/// A track's name as the tab line writes it.
fn drawn(name: &String, upper: bool) -> (s: String)
    ensures
        s@ == drawn_name(name@, upper),
{
    if upper { uppercase(name.as_str()) } else { name.clone() }
}

fn tab_line_in(
    t: &ActiveTheme,
    focused: bool,
    fx_tabs: &Vec<Tab>,
    clip_tabs: &Vec<Tab>,
    clip: &Option<ClipInfo>,
    grid: &Option<SeqInfo>,
    upper: bool,
) -> (spans: Vec<Span>)
    ensures
        span_views(spans@) == tab_line_spec(t, focused, fx_tabs@, clip_tabs@, *clip, *grid, upper),
{
    proof { reveal_strlit(" "); reveal_strlit(""); }
    let mut spans: Vec<Span> = Vec::new();
    let mut mark = String::new();
    crate::text::push_char(&mut mark, '\u{00B3}');
    spans.push(Span::styled(mark, if focused { theme::amber_bright(t) } else { theme::dim(t) }));
    spans.push(Span::styled(String::from_str(" "), theme::bg(t)));
    assert(" "@ =~= seq![' ']);
    let ghost lead = span_views(spans@);
    push_tabs(t, &mut spans, fx_tabs, focused);
    let ghost after_fx = span_views(spans@);
    spans.push(Span::styled(String::from_str(" \u{2502} "), theme::border_style(t)));
    let ghost after_rule = span_views(spans@);
    push_tabs(t, &mut spans, clip_tabs, focused);
    let ghost after_tabs = span_views(spans@);
    let flag = Style { fg: Some(theme::amber_val(t)), bold: true, ..Style::new() };
    match clip {
        Some(c) => {
            let s = concatenated(" ", drawn(&c.track, upper).as_str());
            let s = concatenated(s.as_str(), " \u{00B7} clip ");
            let s = concatenated(s.as_str(), decimal(c.number).as_str());
            let s = concatenated(s.as_str(), "/");
            let s = concatenated(s.as_str(), decimal(c.total).as_str());
            spans.push(Span::styled(s, theme::normal(t)));
            match &c.edit {
                Some(e) => {
                    let f = concatenated(" [EDIT:", e.as_str());
                    spans.push(Span::styled(concatenated(f.as_str(), "]"), flag));
                },
                None => {},
            }
        },
        None => {},
    }
    let ghost after_clip = span_views(spans@);
    match grid {
        Some(g) => {
            match &g.track {
                Some(name) => {
                    let s = concatenated(" ", drawn(name, upper).as_str());
                    spans.push(Span::styled(concatenated(s.as_str(), " \u{00B7} seq"), theme::normal(t)));
                },
                None => {},
            }
            let f = concatenated(" [SEQ:", g.band.as_str());
            let f = concatenated(f.as_str(), if g.locked { " hold" } else { "" });
            spans.push(Span::styled(concatenated(f.as_str(), "]"), flag));
        },
        None => {},
    }
    proof {
        let lead_v = seq![
            (seq!['\u{00B3}'], if focused { colors(active(t).amber_bright, active(t).bg) } else { colors(active(t).dim, active(t).bg) }),
            (seq![' '], on(active(t).bg)),
        ];
        assert(lead =~= lead_v);
        assert(after_rule =~= after_fx + seq![(" \u{2502} "@, colors(active(t).border, active(t).bg))]);
        assert(after_clip =~= after_tabs + clip_part_spec(t, *clip, upper));
        assert(span_views(spans@) =~= after_clip + grid_part_spec(t, *grid, upper));
    }
    assert(span_views(spans@) =~= tab_line_spec(t, focused, fx_tabs@, clip_tabs@, *clip, *grid, upper));
    spans
}

/// The piano roll's settings, as their values read.
pub struct RollSettings {
    /// The grid's name.
    pub grid: String,
    pub snap: bool,
    pub velocity: u64,
    /// The record quantize grid's name, or `None` for off.
    pub rec_quant: Option<String>,
    pub edit_mode: bool,
}

/// The four settings, each a name and its value as written.
pub open spec fn setting_items(s: RollSettings) -> Seq<(Seq<char>, Seq<char>)> {
    seq![
        ("Grid"@, s.grid@),
        ("Snap"@, if s.snap { "on"@ } else { "off"@ }),
        ("Velocity"@, decimal_spec(s.velocity as nat)),
        ("Rec quant"@, match s.rec_quant { Some(q) => q@, None => "off"@ }),
    ]
}

/// The value under the cursor: white on amber.
pub open spec fn held_value(t: &ActiveTheme) -> Style {
    colors(Color::Rgb(255, 255, 255), active(t).amber)
}

/// One setting's line: the caret, the name in ten columns, and the value
/// after a space.
pub open spec fn setting_line_spec(t: &ActiveTheme, name: Seq<char>, value: Seq<char>, here: bool) -> Seq<
    (Seq<char>, Style),
> {
    let label = if here { colors(active(t).amber_bright, active(t).bg) } else { colors(active(t).normal, active(t).bg) };
    seq![
        (if here { seq!['\u{25B8}', ' '] } else { seq![' ', ' '] }, label),
        (left_aligned_spec(name, 10), label),
        (seq![' '] + value, if here { held_value(t) } else { colors(active(t).muted, active(t).bg) }),
    ]
}

/// The settings page: its heading, a blank line, the four settings with the
/// cursor's marked while the page has the keys, a blank line, the keys, and
/// — with the keys — whether the edit mode is on.
pub open spec fn settings_spec(t: &ActiveTheme, s: RollSettings, cursor: int, focused: bool) -> Seq<
    Seq<(Seq<char>, Style)>,
> {
    let dim = colors(active(t).dim, active(t).bg);
    let items = setting_items(s);
    let body = seq![
        seq![("  Piano Roll Settings"@, if focused { bolded(colors(active(t).amber_bright, active(t).bg)) } else { dim })],
        Seq::empty(),
    ] + Seq::new(4, |i: int| setting_line_spec(t, items[i].0, items[i].1, focused && i == cursor)) + seq![
        Seq::empty(),
        seq![("  h/l to adjust, j/k to navigate"@, dim)],
    ];
    if focused {
        body.push(seq![(
            "  Edit mode: Space+E ("@ + (if s.edit_mode { "active"@ } else { "off"@ }) + ")"@,
            colors(active(t).muted, active(t).bg),
        )])
    } else {
        body
    }
}

fn setting_line(t: &ActiveTheme, name: &str, value: &str, here: bool) -> (spans: Vec<Span>)
    ensures
        span_views(spans@) == setting_line_spec(t, name@, value@, here),
{
    proof {
        reveal_strlit("\u{25B8} ");
        reveal_strlit("  ");
        reveal_strlit(" ");
    }
    assert("\u{25B8} "@ =~= seq!['\u{25B8}', ' ']);
    assert("  "@ =~= seq![' ', ' ']);
    assert(" "@ =~= seq![' ']);
    let label = if here { theme::amber_bright(t) } else { theme::normal(t) };
    let value_style = if here {
        Style::new().fg(Color::Rgb(255, 255, 255)).bg(theme::amber_val(t))
    } else {
        theme::muted(t)
    };
    let spans = vec![
        Span::styled(String::from_str(if here { "\u{25B8} " } else { "  " }), label),
        Span::styled(left_aligned(name, 10), label),
        Span::styled(concatenated(" ", value), value_style),
    ];
    assert(span_views(spans@) =~= setting_line_spec(t, name@, value@, here));
    spans
}

/// The piano roll's settings page.
pub fn settings_lines(t: &ActiveTheme, s: &RollSettings, cursor: usize, focused: bool) -> (lines: Vec<Vec<Span>>)
    ensures
        lines@.len() == settings_spec(t, *s, cursor as int, focused).len(),
        forall|i: int|
            0 <= i < lines@.len() ==> span_views(#[trigger] lines@[i]@) == settings_spec(t, *s, cursor as int, focused)[i],
{
    let ghost want = settings_spec(t, *s, cursor as int, focused);
    let ghost items = setting_items(*s);
    let mut lines: Vec<Vec<Span>> = Vec::new();
    lines.push(vec![Span::styled(
        String::from_str("  Piano Roll Settings"),
        if focused { theme::amber_bright(t).bold() } else { theme::dim(t) },
    )]);
    lines.push(Vec::new());
    let snap = if s.snap { "on" } else { "off" };
    let velocity = decimal(s.velocity);
    let rec = match &s.rec_quant {
        Some(q) => q.as_str(),
        None => "off",
    };
    lines.push(setting_line(t, "Grid", s.grid.as_str(), focused && cursor == 0));
    lines.push(setting_line(t, "Snap", snap, focused && cursor == 1));
    lines.push(setting_line(t, "Velocity", velocity.as_str(), focused && cursor == 2));
    lines.push(setting_line(t, "Rec quant", rec, focused && cursor == 3));
    lines.push(Vec::new());
    lines.push(vec![Span::styled(String::from_str("  h/l to adjust, j/k to navigate"), theme::dim(t))]);
    if focused {
        let m = concatenated("  Edit mode: Space+E (", if s.edit_mode { "active" } else { "off" });
        lines.push(vec![Span::styled(concatenated(m.as_str(), ")"), theme::muted(t))]);
    }
    assert(lines@.len() == want.len());
    assert forall|i: int| 0 <= i < lines@.len() implies span_views(#[trigger] lines@[i]@) == want[i] by {
        if i == 0 || i == 1 || i == 6 || i == 7 || i == 8 {
            assert(span_views(lines@[i]@) =~= want[i]);
        }
    }
    lines
}

} // verus!
