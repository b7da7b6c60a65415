//! The two rows above the tracks: the transport bar, and the ruler that
//! numbers the sixteen bars the track list shows.

use vstd::prelude::*;

use crate::style::{bolded, colors, Color, Style};
use crate::text::{concatenated, decimal, decimal_spec, left_aligned, left_aligned_spec, span_views, Span};
use crate::theme::{self, active, ActiveTheme};

verus! {

/// Bars the track list shows across.
pub const VISIBLE_BARS: usize = 16;

/// The transport bar's fixed colours: the bpm's amber, the record light's
/// two reds, and the grey-blues a deselected control sits in.
pub open spec fn fixed_amber() -> Color {
    Color::Rgb(114, 88, 14)
}

pub open spec fn fixed_amber_bright() -> Color {
    Color::Rgb(150, 116, 20)
}

pub open spec fn fixed_dim() -> Color {
    Color::Rgb(22, 46, 60)
}

pub open spec fn fixed_normal() -> Color {
    Color::Rgb(37, 78, 98)
}

pub open spec fn rec_dim() -> Color {
    Color::Rgb(90, 26, 26)
}

pub open spec fn rec_lit() -> Color {
    Color::Rgb(180, 50, 50)
}

/// The transport controls a cursor can stand on.
#[derive(Clone, Copy, Debug, PartialEq, Eq, Structural)]
pub enum TransportElement {
    Bpm,
    Record,
    Loop,
    Metronome,
}

/// What the transport bar reads of the session.
#[derive(Clone, Copy, Debug, PartialEq, Eq, Structural)]
pub struct TransportBar {
    /// The transport pane has the focus.
    pub focused: bool,
    /// The control under the transport cursor.
    pub element: TransportElement,
    /// That control is being edited.
    pub editing: bool,
    pub playing: bool,
    pub recording: bool,
    pub metronome: bool,
    /// The loop editor has the keys.
    pub loop_active: bool,
    pub loop_enabled: bool,
}

/// The wordmark, with the pane's number ahead of it lit while the transport
/// has the focus.
pub fn brand_spans(t: &ActiveTheme, focused: bool) -> (spans: Vec<Span>)
    ensures
        span_views(spans@) == seq![
            (seq!['\u{00B9}'], if focused { colors(active(t).amber, active(t).bg) } else { colors(active(t).dim, active(t).bg) }),
            ("phosphor"@, bolded(colors(active(t).bright, active(t).bg))),
        ],
{
    let mut spans: Vec<Span> = Vec::new();
    spans.push(Span::styled(
        crate::text::char_string('\u{00B9}'),
        if focused { theme::amber(t) } else { theme::dim(t) },
    ));
    spans.push(Span::styled(String::from_str("phosphor"), theme::branding(t)));
    assert(span_views(spans@) =~= seq![
        (seq!['\u{00B9}'], if focused { colors(active(t).amber, active(t).bg) } else { colors(active(t).dim, active(t).bg) }),
        ("phosphor"@, bolded(colors(active(t).bright, active(t).bg))),
    ]);
    spans
}

/// The transport bar's middle, control by control: whether the sequencer
/// runs, the tempo, the metre, the record light, the loop and the click.
/// The control under the cursor sits on the highlight; the tempo being
/// edited is drawn in the playhead's yellow between arrows.
pub open spec fn transport_spec(t: &ActiveTheme, b: TransportBar, tempo: Seq<char>, loop_span: Seq<char>) -> Seq<(Seq<char>, Style)> {
    let bg = active(t).bg;
    let hi = theme::lighten_spec(bg, 12);
    let bpm_sel = b.focused && b.element == TransportElement::Bpm;
    let rec_sel = b.focused && b.element == TransportElement::Record;
    let loop_sel = b.focused && b.element == TransportElement::Loop;
    let met_sel = b.focused && b.element == TransportElement::Metronome;
    seq![
        if b.playing { ("seq:on"@, colors(active(t).normal, bg)) } else { ("seq:off"@, colors(active(t).dim, bg)) },
        ("  "@ + (if b.editing && bpm_sel { "\u{2190}bpm\u{2192}"@ } else { "bpm:"@ }), colors(active(t).normal, bg)),
        (tempo, colors(if b.editing && bpm_sel { Color::Rgb(255, 200, 50) } else { fixed_amber_bright() }, if bpm_sel { hi } else { bg })),
        ("  4/4  "@, colors(active(t).normal, bg)),
        ("\u{25CF} rec"@, colors(
            if b.recording { rec_lit() } else if rec_sel { fixed_normal() } else { rec_dim() },
            if rec_sel { hi } else { bg },
        )),
        ("  "@, crate::style::on(bg)),
        if b.loop_active {
            ((if b.loop_enabled { "loop"@ } else { "loop?"@ }) + "["@ + loop_span + "]"@, bolded(colors(active(t).amber_bright, bg)))
        } else if b.loop_enabled {
            ("loop:"@ + loop_span, colors(fixed_amber(), if loop_sel { hi } else { bg }))
        } else {
            ("loop:off"@, colors(if loop_sel { fixed_normal() } else { fixed_dim() }, if loop_sel { hi } else { bg }))
        },
        ("  "@, crate::style::on(bg)),
        ("\u{266A}"@, colors(if b.metronome { fixed_amber() } else { fixed_dim() }, if met_sel { hi } else { bg })),
    ]
}

/// The transport bar's middle. `tempo` is the tempo as it is printed and
/// `loop_span` the loop's bars as the loop editor prints them.
pub fn transport_spans(t: &ActiveTheme, b: &TransportBar, tempo: &str, loop_span: &str) -> (spans: Vec<Span>)
    ensures
        span_views(spans@) == transport_spec(t, *b, tempo@, loop_span@),
{
    let bg = theme::bg_val(t);
    let hi = theme::transport_hi_bg(t);
    let bpm_sel = b.focused && b.element == TransportElement::Bpm;
    let rec_sel = b.focused && b.element == TransportElement::Record;
    let loop_sel = b.focused && b.element == TransportElement::Loop;
    let met_sel = b.focused && b.element == TransportElement::Metronome;
    let mut spans: Vec<Span> = Vec::new();
    if b.playing {
        spans.push(Span::styled(String::from_str("seq:on"), theme::normal(t)));
    } else {
        spans.push(Span::styled(String::from_str("seq:off"), theme::dim(t)));
    }
    let label = if b.editing && bpm_sel { "\u{2190}bpm\u{2192}" } else { "bpm:" };
    spans.push(Span::styled(concatenated("  ", label), theme::normal(t)));
    let tempo_fg = if b.editing && bpm_sel { theme::playhead_fg() } else { Color::Rgb(150, 116, 20) };
    spans.push(Span::styled(String::from_str(tempo), Style::new().fg(tempo_fg).bg(if bpm_sel { hi } else { bg })));
    spans.push(Span::styled(String::from_str("  4/4  "), theme::normal(t)));
    let rec_fg = if b.recording {
        Color::Rgb(180, 50, 50)
    } else if rec_sel {
        Color::Rgb(37, 78, 98)
    } else {
        Color::Rgb(90, 26, 26)
    };
    spans.push(Span::styled(String::from_str("\u{25CF} rec"), Style::new().fg(rec_fg).bg(if rec_sel { hi } else { bg })));
    spans.push(Span::styled(String::from_str("  "), theme::bg(t)));
    if b.loop_active {
        let word = if b.loop_enabled { "loop" } else { "loop?" };
        let opened = concatenated(word, "[");
        let inner = concatenated(opened.as_str(), loop_span);
        spans.push(Span::styled(concatenated(inner.as_str(), "]"), theme::amber_bright(t).bold()));
    } else if b.loop_enabled {
        spans.push(Span::styled(
            concatenated("loop:", loop_span),
            Style::new().fg(Color::Rgb(114, 88, 14)).bg(if loop_sel { hi } else { bg }),
        ));
    } else {
        spans.push(Span::styled(
            String::from_str("loop:off"),
            Style::new().fg(if loop_sel { Color::Rgb(37, 78, 98) } else { Color::Rgb(22, 46, 60) }).bg(if loop_sel { hi } else { bg }),
        ));
    }
    spans.push(Span::styled(String::from_str("  "), theme::bg(t)));
    spans.push(Span::styled(
        String::from_str("\u{266A}"),
        Style::new().fg(if b.metronome { Color::Rgb(114, 88, 14) } else { Color::Rgb(22, 46, 60) }).bg(if met_sel { hi } else { bg }),
    ));
    assert(span_views(spans@) =~~= transport_spec(t, *b, tempo@, loop_span@));
    spans
}

/// The bar a position falls in, counting from one.
pub fn bar_of(position_ticks: u64, ticks_per_bar: u64) -> (bar: u64)
    requires
        ticks_per_bar > 1,
    ensures
        bar == position_ticks / ticks_per_bar + 1,
{
    assert(position_ticks / ticks_per_bar <= position_ticks / 2) by (nonlinear_arith)
        requires
            ticks_per_bar > 1,
    ;
    position_ticks / ticks_per_bar + 1
}

/// What the ruler reads of the session.
#[derive(Clone, Copy, Debug, PartialEq, Eq, Structural)]
pub struct RulerState {
    pub playing: bool,
    pub position_ticks: i64,
    pub ticks_per_bar: i64,
    /// The loop's first bar, counting from one.
    pub loop_start: u64,
    /// The bar after its last.
    pub loop_end: u64,
    /// The loop editor has the keys.
    pub loop_active: bool,
    pub loop_enabled: bool,
}

/// How bar `b` (from zero) of the ruler is drawn: the playhead's bar in
/// amber; while the loop editor has the keys its first bar green and its
/// last red; the rest of the loop in teal; every fourth bar brighter than
/// the others.
pub open spec fn ruler_style_spec(t: &ActiveTheme, r: RulerState, b: int) -> Style {
    let bar_num = b + 1;
    let under_playhead = r.playing && r.position_ticks >= b * r.ticks_per_bar && r.position_ticks < (b + 1) * r.ticks_per_bar;
    let in_loop = (r.loop_enabled || r.loop_active) && bar_num >= r.loop_start && bar_num < r.loop_end;
    if under_playhead {
        colors(active(t).amber, active(t).bg)
    } else if r.loop_active && bar_num == r.loop_start {
        bolded(colors(Color::Rgb(80, 180, 80), active(t).bg))
    } else if r.loop_active && bar_num + 1 == r.loop_end {
        bolded(colors(Color::Rgb(180, 80, 80), active(t).bg))
    } else if in_loop {
        colors(Color::Rgb(50, 100, 110), active(t).bg)
    } else if b % 4 == 0 {
        colors(active(t).normal, active(t).bg)
    } else {
        colors(active(t).dim, active(t).bg)
    }
}

/// **The loop shows on the ruler whenever it is on.** A bar of an enabled
/// loop (bars `loop_start` up to `loop_end`, counted from one) is drawn
/// teal whether or not the loop editor has the keys, unless the playhead
/// is in it or it is an end the editor is moving; those ends are green at
/// the start and red at the end, and the playhead's bar is amber over all.
pub proof fn lemma_loop_shows_on_the_ruler(t: &ActiveTheme, r: RulerState, b: int)
    requires
        0 <= b,
    ensures
        ({
            let bar = b + 1;
            let playhead_here = r.playing && b * r.ticks_per_bar <= r.position_ticks < (b + 1) * r.ticks_per_bar;
            let moving_end = r.loop_active && (bar == r.loop_start || bar + 1 == r.loop_end);
            &&& r.loop_enabled && r.loop_start <= bar < r.loop_end && !playhead_here && !moving_end
                ==> ruler_style_spec(t, r, b) == colors(Color::Rgb(50, 100, 110), active(t).bg)
            &&& r.loop_active && bar == r.loop_start && !playhead_here
                ==> ruler_style_spec(t, r, b) == bolded(colors(Color::Rgb(80, 180, 80), active(t).bg))
            &&& r.loop_active && bar != r.loop_start && bar + 1 == r.loop_end && !playhead_here
                ==> ruler_style_spec(t, r, b) == bolded(colors(Color::Rgb(180, 80, 80), active(t).bg))
            &&& playhead_here ==> ruler_style_spec(t, r, b) == colors(active(t).amber, active(t).bg)
        }),
{
}

/// The ruler's numbers, one span a bar, each number left-aligned in the
/// bar's width; nothing when a bar would be narrower than a column.
pub open spec fn ruler_spec(t: &ActiveTheme, r: RulerState, width: nat) -> Seq<(Seq<char>, Style)> {
    let bw = width / (VISIBLE_BARS as nat);
    if bw == 0 {
        Seq::empty()
    } else {
        Seq::new(VISIBLE_BARS as nat, |b: int| (left_aligned_spec(decimal_spec((b + 1) as nat), bw), ruler_style_spec(t, r, b)))
    }
}

pub fn ruler_style(t: &ActiveTheme, r: &RulerState, b: usize) -> (s: Style)
    requires
        b < VISIBLE_BARS,
        0 < r.ticks_per_bar < i64::MAX / 32,
    ensures
        s == ruler_style_spec(t, *r, b as int),
{
    let bar_num = (b + 1) as u64;
    let bi = b as i64;
    assert(0 <= (bi as int + 1) * r.ticks_per_bar <= 16 * (i64::MAX / 32)) by (nonlinear_arith)
        requires
            0 <= bi < 16,
            0 < r.ticks_per_bar < i64::MAX / 32,
    ;
    assert(0 <= (bi as int) * r.ticks_per_bar <= (bi as int + 1) * r.ticks_per_bar) by (nonlinear_arith)
        requires
            0 <= bi < 16,
            0 < r.ticks_per_bar,
    ;
    let under_playhead = r.playing && r.position_ticks >= bi * r.ticks_per_bar
        && r.position_ticks < (bi + 1) * r.ticks_per_bar;
    let in_loop = (r.loop_enabled || r.loop_active) && bar_num >= r.loop_start && bar_num < r.loop_end;
    if under_playhead {
        theme::amber(t)
    } else if r.loop_active && bar_num == r.loop_start {
        Style::new().fg(Color::Rgb(80, 180, 80)).bg(theme::bg_val(t)).bold()
    } else if r.loop_active && bar_num + 1 == r.loop_end {
        Style::new().fg(Color::Rgb(180, 80, 80)).bg(theme::bg_val(t)).bold()
    } else if in_loop {
        Style::new().fg(Color::Rgb(50, 100, 110)).bg(theme::bg_val(t))
    } else if b % 4 == 0 {
        theme::normal(t)
    } else {
        theme::dim(t)
    }
}

/// The ruler over the clip area, `width` columns wide.
pub fn ruler_spans(t: &ActiveTheme, r: &RulerState, width: usize) -> (spans: Vec<Span>)
    requires
        0 < r.ticks_per_bar < i64::MAX / 32,
    ensures
        span_views(spans@) == ruler_spec(t, *r, width as nat),
{
    let bw = width / VISIBLE_BARS;
    let mut spans: Vec<Span> = Vec::new();
    if bw == 0 {
        assert(span_views(spans@) =~= ruler_spec(t, *r, width as nat));
        return spans;
    }
    let mut b: usize = 0;
    while b < VISIBLE_BARS
        invariant
            b <= VISIBLE_BARS,
            bw == width / VISIBLE_BARS,
            bw > 0,
            0 < r.ticks_per_bar < i64::MAX / 32,
            span_views(spans@) =~= ruler_spec(t, *r, width as nat).subrange(0, b as int),
        decreases VISIBLE_BARS - b,
    {
        let number = decimal((b + 1) as u64);
        let text = left_aligned(number.as_str(), bw);
        let style = ruler_style(t, r, b);
        let ghost before = spans@;
        spans.push(Span::styled(text, style));
        proof {
            let all = ruler_spec(t, *r, width as nat);
            assert(all.subrange(0, b as int + 1) =~= all.subrange(0, b as int).push(all[b as int]));
            assert(span_views(spans@) =~= span_views(before).push((text@, style)));
        }
        b += 1;
    }
    assert(ruler_spec(t, *r, width as nat).subrange(0, VISIBLE_BARS as int) =~= ruler_spec(t, *r, width as nat));
    spans
}

/// The ruler's heading over the track headers: the pane's number, lit while
/// the track list has the focus, and `trk`.
pub fn ruler_heading(t: &ActiveTheme, focused: bool) -> (spans: Vec<Span>)
    ensures
        span_views(spans@) == seq![
            (seq!['\u{00B2}'], if focused { colors(active(t).amber, active(t).bg) } else { colors(active(t).dim, active(t).bg) }),
            ("trk"@, colors(active(t).dim, active(t).bg)),
        ],
{
    let mut spans: Vec<Span> = Vec::new();
    spans.push(Span::styled(
        crate::text::char_string('\u{00B2}'),
        if focused { theme::amber(t) } else { theme::dim(t) },
    ));
    spans.push(Span::styled(String::from_str("trk"), theme::dim(t)));
    assert(span_views(spans@) =~= seq![
        (seq!['\u{00B2}'], if focused { colors(active(t).amber, active(t).bg) } else { colors(active(t).dim, active(t).bg) }),
        ("trk"@, colors(active(t).dim, active(t).bg)),
    ]);
    spans
}

} // verus!
