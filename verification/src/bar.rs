//! The bottom bar: the mode tag on the left, the keys that mean something in
//! this mode in the middle (or a message, while one lives), and the pane list
//! on the right.
//!
//! What the bar reads of the session is gathered into [`BarState`] as plain
//! flags, so that which tag and which keys a given state gets is a table this
//! module states and proves, rather than something only a screenshot shows.

use vstd::prelude::*;

use crate::steps::SeqBand;
use crate::style::{bolded, colors, Color, Style};
use crate::text::{char_count, concatenated, span_views, Span};
use crate::theme::{self, active, ActiveTheme};

verus! {

/// The three panes the bar can have focused.
#[derive(Clone, Copy, Debug, PartialEq, Eq, Structural)]
pub enum Pane {
    Transport,
    Tracks,
    ClipView,
}

/// The clip view's tabs.
#[derive(Clone, Copy, Debug, PartialEq, Eq, Structural)]
pub enum ClipTab {
    PianoRoll,
    Fx,
    InstConfig,
    Pads,
    Sequencer,
    Settings,
}

/// Which half of the clip view has the keys.
#[derive(Clone, Copy, Debug, PartialEq, Eq, Structural)]
pub enum ClipFocus {
    FxPanel,
    PianoRoll,
}

/// Where the piano roll's cursor is: on the columns, on a row, or on a
/// selected note.
#[derive(Clone, Copy, Debug, PartialEq, Eq, Structural)]
pub enum RollFocus {
    Columns,
    Row,
    Selected,
}

/// Everything the bottom bar reads of the session, as plain flags.
#[derive(Clone, Copy, Debug, PartialEq, Eq, Structural)]
pub struct BarState {
    /// A track is playing its sidechain key instead of itself.
    pub key_listen: bool,
    /// The loop editor has the keys.
    pub loop_active: bool,
    /// The loop is on.
    pub loop_enabled: bool,
    pub pane: Pane,
    /// A transport field is being edited.
    pub transport_editing: bool,
    /// The track under the cursor is playing a synth in place of its sampler.
    pub source_here: bool,
    /// ...and is recording a take of it.
    pub source_armed: bool,
    pub tab: ClipTab,
    pub focus: ClipFocus,
    /// The effect panel shows the track's effect chain.
    pub chain_panel: bool,
    /// A knob of the open effect is held.
    pub fx_locked: bool,
    /// The open effect is drawn wide.
    pub fx_wide: bool,
    /// The open effect is a compressor.
    pub compressor_open: bool,
    /// A knob of the step grid is held.
    pub seq_locked: bool,
    pub seq_band: SeqBand,
    /// The step grid's rows are a kit's sounds rather than pitches.
    pub kit_rows: bool,
    /// The trim strip is open on the pad map.
    pub trim_open: bool,
    /// The pad map waits for a key to be played as a zone's root.
    pub root_learn: bool,
    /// A knob of the pad map is held.
    pub pads_locked: bool,
    /// The pad map addresses zones of keys rather than pads.
    pub keys_mode: bool,
    /// The held pad-map knob is the first one, the zone's span.
    pub first_knob: bool,
    /// Notes are being edited in the piano roll.
    pub note_edit: bool,
    pub roll_focus: RollFocus,
    /// A track is selected in the track list.
    pub track_selected: bool,
}

/// How a mode tag is drawn.
#[derive(Clone, Copy, Debug, PartialEq, Eq, Structural)]
pub enum TagLook {
    /// Blinking red: the box is doing something to the sound, or waiting to
    /// be played to.
    Alarm,
    /// The loop editor's green.
    Looping,
    Bright,
    Selected,
    Normal,
}

/// The step grid has the keys.
pub open spec fn in_grid(s: BarState) -> bool {
    s.pane == Pane::ClipView && s.tab == ClipTab::Sequencer && s.focus == ClipFocus::PianoRoll
}

/// The pad map has the keys.
pub open spec fn in_pads(s: BarState) -> bool {
    s.pane == Pane::ClipView && s.tab == ClipTab::Pads && s.focus == ClipFocus::PianoRoll
}

/// The open effect has the keys.
pub open spec fn in_fx(s: BarState) -> bool {
    s.pane == Pane::ClipView && s.tab == ClipTab::Fx && s.focus == ClipFocus::PianoRoll
}

/// The mode tag a state gets, and how it is drawn.
///
/// Key listen comes first because it changes what comes out of the speakers
/// rather than what the keys do; source mode takes the tag for the same
/// reason from any tab of the clip view.
pub open spec fn mode_tag_spec(s: BarState) -> (Seq<char>, TagLook) {
    if s.key_listen {
        ("-- KEY LISTEN --"@, TagLook::Alarm)
    } else if s.loop_active {
        ("-- LOOP --"@, TagLook::Looping)
    } else if s.pane == Pane::Transport && s.transport_editing {
        ("-- EDIT --"@, TagLook::Bright)
    } else if s.pane == Pane::Transport {
        ("-- TRANSPORT --"@, TagLook::Bright)
    } else if s.source_here && s.pane == Pane::ClipView {
        if s.source_armed {
            ("-- TAKE --"@, TagLook::Alarm)
        } else {
            ("-- SOURCE --"@, TagLook::Bright)
        }
    } else if in_fx(s) {
        if s.fx_locked {
            ("-- HOLD --"@, TagLook::Bright)
        } else {
            ("-- FX --"@, TagLook::Bright)
        }
    } else if in_grid(s) {
        if s.seq_locked {
            ("-- HOLD --"@, TagLook::Bright)
        } else {
            ("-- STEP --"@, TagLook::Bright)
        }
    } else if in_pads(s) {
        if s.trim_open {
            ("-- TRIM --"@, TagLook::Bright)
        } else if s.root_learn {
            ("-- ROOT? --"@, TagLook::Alarm)
        } else if s.pads_locked {
            ("-- HOLD --"@, TagLook::Bright)
        } else if s.keys_mode {
            ("-- KEYS --"@, TagLook::Bright)
        } else {
            ("-- PADS --"@, TagLook::Bright)
        }
    } else if s.track_selected {
        ("-- SELECT --"@, TagLook::Selected)
    } else {
        ("-- NORMAL --"@, TagLook::Normal)
    }
}

/// The mode tag's text and look.
pub fn mode_tag(s: &BarState) -> (tag: (&'static str, TagLook))
    ensures
        (tag.0@, tag.1) == mode_tag_spec(*s),
{
    if s.key_listen {
        ("-- KEY LISTEN --", TagLook::Alarm)
    } else if s.loop_active {
        ("-- LOOP --", TagLook::Looping)
    } else if s.pane == Pane::Transport && s.transport_editing {
        ("-- EDIT --", TagLook::Bright)
    } else if s.pane == Pane::Transport {
        ("-- TRANSPORT --", TagLook::Bright)
    } else if s.source_here && s.pane == Pane::ClipView {
        if s.source_armed {
            ("-- TAKE --", TagLook::Alarm)
        } else {
            ("-- SOURCE --", TagLook::Bright)
        }
    } else if s.pane == Pane::ClipView && s.tab == ClipTab::Fx && s.focus == ClipFocus::PianoRoll {
        if s.fx_locked {
            ("-- HOLD --", TagLook::Bright)
        } else {
            ("-- FX --", TagLook::Bright)
        }
    } else if s.pane == Pane::ClipView && s.tab == ClipTab::Sequencer && s.focus == ClipFocus::PianoRoll {
        if s.seq_locked {
            ("-- HOLD --", TagLook::Bright)
        } else {
            ("-- STEP --", TagLook::Bright)
        }
    } else if s.pane == Pane::ClipView && s.tab == ClipTab::Pads && s.focus == ClipFocus::PianoRoll {
        if s.trim_open {
            ("-- TRIM --", TagLook::Bright)
        } else if s.root_learn {
            ("-- ROOT? --", TagLook::Alarm)
        } else if s.pads_locked {
            ("-- HOLD --", TagLook::Bright)
        } else if s.keys_mode {
            ("-- KEYS --", TagLook::Bright)
        } else {
            ("-- PADS --", TagLook::Bright)
        }
    } else if s.track_selected {
        ("-- SELECT --", TagLook::Selected)
    } else {
        ("-- NORMAL --", TagLook::Normal)
    }
}

/// The red that warns, bold, on the theme's background.
pub open spec fn alarm_spec(t: &ActiveTheme) -> Style {
    bolded(colors(active(t).rec_active, active(t).bg))
}

/// How a tag of this look is drawn; `blink` is whether a blinking thing is
/// lit this half-second.
pub open spec fn tag_style_spec(t: &ActiveTheme, look: TagLook, blink: bool) -> Style {
    match look {
        TagLook::Alarm => if blink { alarm_spec(t) } else { colors(active(t).dim, active(t).bg) },
        TagLook::Looping => colors(Color::Rgb(80, 180, 80), active(t).bg),
        TagLook::Bright => colors(active(t).amber_bright, active(t).bg),
        TagLook::Selected => colors(active(t).amber, active(t).bg),
        TagLook::Normal => colors(active(t).normal, active(t).bg),
    }
}

/// The warning style for a blinking thing: bold red while lit, dim while not.
pub fn blink_style(t: &ActiveTheme, blink: bool) -> (st: Style)
    ensures
        st == tag_style_spec(t, TagLook::Alarm, blink),
{
    if blink {
        Style::new().fg(theme::rec_active_val(t)).bg(theme::bg_val(t)).bold()
    } else {
        theme::dim(t)
    }
}

pub fn tag_style(t: &ActiveTheme, look: TagLook, blink: bool) -> (st: Style)
    ensures
        st == tag_style_spec(t, look, blink),
{
    match look {
        TagLook::Alarm => blink_style(t, blink),
        TagLook::Looping => Style::new().fg(Color::Rgb(80, 180, 80)).bg(theme::bg_val(t)),
        TagLook::Bright => theme::amber_bright(t),
        TagLook::Selected => theme::amber(t),
        TagLook::Normal => theme::normal(t),
    }
}

/// The tag as drawn: the text with a space either side, in its look.
pub fn tag_span(t: &ActiveTheme, s: &BarState, blink: bool) -> (span: Span)
    ensures
        span.text@ == seq![' '] + mode_tag_spec(*s).0 + seq![' '],
        span.style == tag_style_spec(t, mode_tag_spec(*s).1, blink),
{
    let (text, look) = mode_tag(s);
    let front = concatenated(" ", text);
    let whole = concatenated(front.as_str(), " ");
    proof {
        reveal_strlit(" ");
    }
    Span::styled(whole, tag_style(t, look, blink))
}

/// The characters of each key and what it does.
pub open spec fn hint_views(keys: Seq<(&str, &str)>) -> Seq<(Seq<char>, Seq<char>)> {
    keys.map_values(|k: (&str, &str)| (k.0@, k.1@))
}

/// The keys the bar lists for a state, each with what it does there.
///
/// A held knob lists only what it can do, because that is all that can be
/// done; the source mode lists its three keys and nothing else.
pub open spec fn hints_spec(s: BarState) -> Seq<(Seq<char>, Seq<char>)> {
    if s.loop_active {
        seq![("hl"@, "start"@), ("H/L"@, "end"@), ("jk"@, "slide"@), ("g"@, "grid"@), ("y"@, "lift"@), ("x"@, "cut"@), ("p/P"@, "stamp/layer"@), ("enter"@, if s.loop_enabled { "off"@ } else { "on"@ }), ("esc"@, "done"@)]
    } else if s.pane == Pane::Transport && s.transport_editing {
        seq![("hl"@, "adjust"@), ("enter"@, "done"@), ("esc"@, "done"@)]
    } else if s.pane == Pane::Transport {
        seq![("hl"@, "nav"@), ("enter"@, "sel"@), ("+/-"@, "bpm"@), ("tab"@, "pane"@)]
    } else if s.pane == Pane::Tracks && s.track_selected {
        seq![("hl"@, "clip"@), ("m"@, "mute"@), ("s"@, "solo"@), ("r"@, "arm"@), ("R"@, "rec"@), ("esc"@, "back"@)]
    } else if s.pane == Pane::Tracks {
        seq![("jk"@, "track"@), ("enter"@, "sel"@), ("m"@, "mute"@), ("s"@, "solo"@), ("r"@, "arm"@), ("R"@, "rec"@)]
    } else if s.focus == ClipFocus::FxPanel && s.chain_panel {
        seq![("jk"@, "slot"@), ("enter"@, "open"@), ("b"@, "byp"@), ("[]"@, "order"@), ("d"@, "remove"@), ("a"@, "add"@)]
    } else if in_fx(s) && s.fx_locked {
        seq![("hl"@, "adjust"@), ("H/L"@, "stride"@), ("esc"@, "release"@)]
    } else if in_fx(s) && s.compressor_open {
        seq![("jk"@, "knob"@), ("hl"@, "adjust"@), ("H/L"@, "stride"@), ("enter"@, "hold"@), ("b"@, "byp"@), ("esc"@, "back"@)]
    } else if in_fx(s) && s.fx_wide {
        seq![("hl"@, "band"@), ("jk"@, "control"@), ("enter"@, "hold"@), ("n"@, "on/off"@), ("1-8"@, "band"@), ("esc"@, "back"@)]
    } else if in_fx(s) {
        seq![("jk"@, "band"@), ("hl"@, "control"@), ("enter"@, "hold"@), ("n"@, "on/off"@), ("1-8"@, "band"@), ("esc"@, "back"@)]
    } else if in_grid(s) && s.seq_locked {
        seq![("hl"@, "turn"@), ("H/L"@, "stride"@), ("esc"@, "release"@)]
    } else if in_grid(s) && s.seq_band == SeqBand::Grid && s.kit_rows {
        seq![("hl"@, "step"@), ("jk"@, "sound"@), ("n"@, "hit"@), ("enter"@, "edit"@), ("a"@, "acc"@), ("t"@, "play"@)]
    } else if in_grid(s) && s.seq_band == SeqBand::Grid {
        seq![("hl"@, "step"@), ("jk"@, "row"@), ("n"@, "hit"@), ("enter"@, "edit"@), ("a"@, "acc"@), ("t"@, "play"@)]
    } else if in_grid(s) && s.seq_band == SeqBand::Step {
        seq![("hl"@, "knob"@), ("enter"@, "hold"@), ("jk"@, "band"@), ("_"@, "tie"@), ("n"@, "hit"@), ("a"@, "accent"@)]
    } else if in_grid(s) && s.seq_band == SeqBand::Pattern {
        seq![("hl"@, "knob"@), ("enter"@, "hold"@), ("jk"@, "band"@), ("[]"@, "lane"@)]
    } else if in_grid(s) {
        seq![("hl"@, "slot"@), ("enter"@, "queue"@), ("c"@, "chain"@), ("y/p"@, "copy"@), ("X"@, "clear"@), ("jk"@, "band"@)]
    } else if s.source_here && in_pads(s) {
        seq![("r"@, if s.source_armed { "end take"@ } else { "record"@ }), ("i"@, "instrument"@), ("esc"@, "sampler"@)]
    } else if in_pads(s) && s.trim_open {
        seq![("hl"@, "start"@), ("H/L"@, "end"@), ("jk"@, "unit"@), ("z"@, "snap"@), ("r"@, "rev"@), ("t"@, "loop"@), ("esc"@, "back"@)]
    } else if in_pads(s) && s.pads_locked && s.keys_mode && s.first_knob {
        seq![("hl"@, "low edge"@), ("H/L"@, "high edge"@), ("esc"@, "release"@)]
    } else if in_pads(s) && s.pads_locked {
        seq![("hl"@, "turn"@), ("H/L"@, "stride"@), ("esc"@, "release"@)]
    } else if in_pads(s) && s.keys_mode {
        seq![("hl"@, "key"@), ("jk"@, "knob"@), ("w/o/s"@, "zone"@), ("D"@, "drop"@), ("a"@, "load"@), ("R"@, "root"@), ("K"@, "pads"@)]
    } else if in_pads(s) {
        seq![("hl"@, "pad"@), ("jk"@, "knob"@), ("[]"@, "layer"@), ("i"@, "source"@), ("a"@, "load"@), ("t"@, "trim"@), ("K"@, "keys"@)]
    } else if s.note_edit {
        seq![("hjkl"@, "note"@), ("enter"@, "sel"@), (",."@, "vel"@), ("<>"@, "vel\u{00b1}"@), ("m"@, "mute"@), ("d"@, "del"@), ("esc"@, "exit"@)]
    } else if s.focus == ClipFocus::PianoRoll && s.tab == ClipTab::InstConfig {
        seq![("jk"@, "select"@), ("hl"@, "adjust"@), ("tab"@, "next"@), ("esc"@, "back"@)]
    } else if s.focus == ClipFocus::PianoRoll && s.roll_focus == RollFocus::Row {
        seq![("hl"@, "left\u{2194}"@), ("H/L"@, "right\u{2194}"@), ("jk"@, "note"@), ("n"@, "draw"@), ("esc"@, "col"@)]
    } else if s.focus == ClipFocus::PianoRoll && s.roll_focus == RollFocus::Selected {
        seq![("hl"@, "left\u{2194}"@), ("H/L"@, "right\u{2194}"@), ("jk"@, "\u{2193}row"@), ("esc"@, "nav"@)]
    } else if s.focus == ClipFocus::PianoRoll {
        seq![("hl"@, "col"@), ("H/L"@, "highlight"@), ("d"@, "del hl"@), ("1-9"@, "jump"@), ("enter"@, "sel"@)]
    } else {
        seq![("jk"@, "nav"@), ("hl"@, "panel"@), ("tab"@, "tabs"@), ("esc"@, "back"@)]
    }
}

/// The keys the bar lists for this state.
pub fn hints(s: &BarState) -> (keys: Vec<(&'static str, &'static str)>)
    ensures
        hint_views(keys@) == hints_spec(*s),
{
    let fx = s.pane == Pane::ClipView && s.tab == ClipTab::Fx && s.focus == ClipFocus::PianoRoll;
    let grid = s.pane == Pane::ClipView && s.tab == ClipTab::Sequencer && s.focus == ClipFocus::PianoRoll;
    let pads = s.pane == Pane::ClipView && s.tab == ClipTab::Pads && s.focus == ClipFocus::PianoRoll;
    let keys =
    if s.loop_active {
        vec![("hl", "start"), ("H/L", "end"), ("jk", "slide"), ("g", "grid"), ("y", "lift"), ("x", "cut"), ("p/P", "stamp/layer"), ("enter", if s.loop_enabled { "off" } else { "on" }), ("esc", "done")]
    } else if s.pane == Pane::Transport && s.transport_editing {
        vec![("hl", "adjust"), ("enter", "done"), ("esc", "done")]
    } else if s.pane == Pane::Transport {
        vec![("hl", "nav"), ("enter", "sel"), ("+/-", "bpm"), ("tab", "pane")]
    } else if s.pane == Pane::Tracks && s.track_selected {
        vec![("hl", "clip"), ("m", "mute"), ("s", "solo"), ("r", "arm"), ("R", "rec"), ("esc", "back")]
    } else if s.pane == Pane::Tracks {
        vec![("jk", "track"), ("enter", "sel"), ("m", "mute"), ("s", "solo"), ("r", "arm"), ("R", "rec")]
    } else if s.focus == ClipFocus::FxPanel && s.chain_panel {
        vec![("jk", "slot"), ("enter", "open"), ("b", "byp"), ("[]", "order"), ("d", "remove"), ("a", "add")]
    } else if fx && s.fx_locked {
        vec![("hl", "adjust"), ("H/L", "stride"), ("esc", "release")]
    } else if fx && s.compressor_open {
        vec![("jk", "knob"), ("hl", "adjust"), ("H/L", "stride"), ("enter", "hold"), ("b", "byp"), ("esc", "back")]
    } else if fx && s.fx_wide {
        vec![("hl", "band"), ("jk", "control"), ("enter", "hold"), ("n", "on/off"), ("1-8", "band"), ("esc", "back")]
    } else if fx {
        vec![("jk", "band"), ("hl", "control"), ("enter", "hold"), ("n", "on/off"), ("1-8", "band"), ("esc", "back")]
    } else if grid && s.seq_locked {
        vec![("hl", "turn"), ("H/L", "stride"), ("esc", "release")]
    } else if grid && s.seq_band == SeqBand::Grid && s.kit_rows {
        vec![("hl", "step"), ("jk", "sound"), ("n", "hit"), ("enter", "edit"), ("a", "acc"), ("t", "play")]
    } else if grid && s.seq_band == SeqBand::Grid {
        vec![("hl", "step"), ("jk", "row"), ("n", "hit"), ("enter", "edit"), ("a", "acc"), ("t", "play")]
    } else if grid && s.seq_band == SeqBand::Step {
        vec![("hl", "knob"), ("enter", "hold"), ("jk", "band"), ("_", "tie"), ("n", "hit"), ("a", "accent")]
    } else if grid && s.seq_band == SeqBand::Pattern {
        vec![("hl", "knob"), ("enter", "hold"), ("jk", "band"), ("[]", "lane")]
    } else if grid {
        vec![("hl", "slot"), ("enter", "queue"), ("c", "chain"), ("y/p", "copy"), ("X", "clear"), ("jk", "band")]
    } else if s.source_here && pads {
        vec![("r", if s.source_armed { "end take" } else { "record" }), ("i", "instrument"), ("esc", "sampler")]
    } else if pads && s.trim_open {
        vec![("hl", "start"), ("H/L", "end"), ("jk", "unit"), ("z", "snap"), ("r", "rev"), ("t", "loop"), ("esc", "back")]
    } else if pads && s.pads_locked && s.keys_mode && s.first_knob {
        vec![("hl", "low edge"), ("H/L", "high edge"), ("esc", "release")]
    } else if pads && s.pads_locked {
        vec![("hl", "turn"), ("H/L", "stride"), ("esc", "release")]
    } else if pads && s.keys_mode {
        vec![("hl", "key"), ("jk", "knob"), ("w/o/s", "zone"), ("D", "drop"), ("a", "load"), ("R", "root"), ("K", "pads")]
    } else if pads {
        vec![("hl", "pad"), ("jk", "knob"), ("[]", "layer"), ("i", "source"), ("a", "load"), ("t", "trim"), ("K", "keys")]
    } else if s.note_edit {
        vec![("hjkl", "note"), ("enter", "sel"), (",.", "vel"), ("<>", "vel\u{00b1}"), ("m", "mute"), ("d", "del"), ("esc", "exit")]
    } else if s.focus == ClipFocus::PianoRoll && s.tab == ClipTab::InstConfig {
        vec![("jk", "select"), ("hl", "adjust"), ("tab", "next"), ("esc", "back")]
    } else if s.focus == ClipFocus::PianoRoll && s.roll_focus == RollFocus::Row {
        vec![("hl", "left\u{2194}"), ("H/L", "right\u{2194}"), ("jk", "note"), ("n", "draw"), ("esc", "col")]
    } else if s.focus == ClipFocus::PianoRoll && s.roll_focus == RollFocus::Selected {
        vec![("hl", "left\u{2194}"), ("H/L", "right\u{2194}"), ("jk", "\u{2193}row"), ("esc", "nav")]
    } else if s.focus == ClipFocus::PianoRoll {
        vec![("hl", "col"), ("H/L", "highlight"), ("d", "del hl"), ("1-9", "jump"), ("enter", "sel")]
    } else {
        vec![("jk", "nav"), ("hl", "panel"), ("tab", "tabs"), ("esc", "back")]
    };
    assert(hint_views(keys@) =~= hints_spec(*s));
    keys
}

/// The key hints as drawn: each key dim, then a dot, what it does and a gap
/// of two, muted.
pub open spec fn hint_line_spec(t: &ActiveTheme, keys: Seq<(Seq<char>, Seq<char>)>) -> Seq<(Seq<char>, Style)>
    decreases keys.len(),
{
    if keys.len() == 0 {
        Seq::empty()
    } else {
        let (k, v) = keys.last();
        hint_line_spec(t, keys.drop_last()) + seq![
            (k, colors(active(t).dim, active(t).bg)),
            ("\u{00B7}"@ + v + "  "@, colors(active(t).muted, active(t).bg)),
        ]
    }
}

/// Draw a list of key hints.
pub fn hint_spans(t: &ActiveTheme, keys: &Vec<(&'static str, &'static str)>) -> (spans: Vec<Span>)
    ensures
        span_views(spans@) == hint_line_spec(t, hint_views(keys@)),
{
    let mut spans: Vec<Span> = Vec::new();
    let mut i: usize = 0;
    while i < keys.len()
        invariant
            i <= keys.len(),
            span_views(spans@) == hint_line_spec(t, hint_views(keys@.subrange(0, i as int))),
        decreases keys.len() - i,
    {
        let (k, v) = keys[i];
        let ghost before = spans@;
        spans.push(Span::styled(String::from_str(k), theme::dim(t)));
        let dotted = concatenated("\u{00B7}", v);
        spans.push(Span::styled(concatenated(dotted.as_str(), "  "), theme::muted(t)));
        proof {
            let done = keys@.subrange(0, i as int + 1);
            assert(done.drop_last() =~= keys@.subrange(0, i as int));
            assert(hint_views(done).drop_last() =~= hint_views(done.drop_last()));
            assert(span_views(spans@) =~= span_views(before) + seq![
                (k@, colors(active(t).dim, active(t).bg)),
                ("\u{00B7}"@ + v@ + "  "@, colors(active(t).muted, active(t).bg)),
            ]);
        }
        i += 1;
    }
    assert(keys@.subrange(0, keys@.len() as int) =~= keys@);
    spans
}

/// What the middle of the bar says: while a track plays its sidechain key,
/// which track and the way out; else a message while one lives, unless a
/// clip number is being typed; else the keys of the mode.
pub open spec fn middle_spec(
    t: &ActiveTheme,
    s: BarState,
    listening: Option<Seq<char>>,
    message: Option<Seq<char>>,
    typing: bool,
    blink: bool,
) -> Seq<(Seq<char>, Style)> {
    match listening {
        Some(name) => seq![
            (name + " is playing its sidechain key"@,
                if blink { colors(active(t).rec_active, active(t).bg) }
                else { colors(active(t).muted, active(t).bg) }),
            ("  \u{00b7} esc puts it back \u{00b7} clears on stop"@, colors(active(t).dim, active(t).bg)),
        ],
        None => match message {
            Some(m) if !typing => seq![(m, colors(active(t).amber_bright, active(t).bg))],
            _ => hint_line_spec(t, hints_spec(s)),
        },
    }
}

/// The middle of the bar. `listening` is the name of the track playing its
/// sidechain key, if one is; `message` the status message, if one lives;
/// `typing` whether a clip number is being typed.
pub fn middle(
    t: &ActiveTheme,
    s: &BarState,
    listening: Option<&str>,
    message: Option<&str>,
    typing: bool,
    blink: bool,
) -> (spans: Vec<Span>)
    ensures
        span_views(spans@) == middle_spec(
            t,
            *s,
            match listening { Some(n) => Some(n@), None => None },
            match message { Some(m) => Some(m@), None => None },
            typing,
            blink,
        ),
{
    let mut spans: Vec<Span> = Vec::new();
    if let Some(name) = listening {
        let style = if blink {
            Style::new().fg(theme::rec_active_val(t)).bg(theme::bg_val(t))
        } else {
            theme::muted(t)
        };
        spans.push(Span::styled(concatenated(name, " is playing its sidechain key"), style));
        spans.push(Span::styled(
            String::from_str("  \u{00b7} esc puts it back \u{00b7} clears on stop"),
            theme::dim(t),
        ));
        assert(span_views(spans@) =~= middle_spec(t, *s, Some(name@), match message { Some(m) => Some(m@), None => None }, typing, blink));
        return spans;
    }
    if let Some(m) = message {
        if !typing {
            spans.push(Span::styled(String::from_str(m), theme::amber_bright(t)));
            assert(span_views(spans@) =~= seq![(m@, colors(active(t).amber_bright, active(t).bg))]);
            return spans;
        }
    }
    let keys = hints(s);
    hint_spans(t, &keys)
}

/// A pane as the bar lists it: the number after `spc+` that jumps to it, and
/// its name.
pub struct PaneName {
    pub pane: Pane,
    pub number: u64,
    pub label: String,
}

/// The right-hand end of the bar: each pane, the focused one bright; the
/// clip number being typed, if one is; and how to quit.
pub open spec fn panes_spec(t: &ActiveTheme, focused: Pane, panes: Seq<PaneName>, typed: Seq<char>) -> Seq<(Seq<char>, Style)> {
    pane_list_spec(t, focused, panes) + (if typed.len() > 0 {
        seq![
            ("clip:"@, colors(active(t).dim, active(t).bg)),
            (typed, bolded(colors(active(t).amber_bright, active(t).bg))),
            ("_ "@, colors(active(t).amber, active(t).bg)),
        ]
    } else {
        Seq::empty()
    }) + seq![(":q"@, colors(active(t).dim, active(t).bg))]
}

/// Each pane as `spc+N` and `·name`, bright where it has the focus.
pub open spec fn pane_list_spec(t: &ActiveTheme, focused: Pane, panes: Seq<PaneName>) -> Seq<(Seq<char>, Style)>
    decreases panes.len(),
{
    if panes.len() == 0 {
        Seq::empty()
    } else {
        let p = panes.last();
        let on = p.pane == focused;
        pane_list_spec(t, focused, panes.drop_last()) + seq![
            ("spc+"@ + crate::text::decimal_spec(p.number as nat),
                if on { bolded(colors(active(t).amber_bright, active(t).bg)) }
                else { colors(active(t).dim, active(t).bg) }),
            ("\u{00B7}"@ + p.label@ + "  "@,
                if on { colors(active(t).amber, active(t).bg) }
                else { colors(active(t).muted, active(t).bg) }),
        ]
    }
}

pub fn pane_spans(t: &ActiveTheme, focused: Pane, panes: &Vec<PaneName>, typed: &str) -> (spans: Vec<Span>)
    ensures
        span_views(spans@) == panes_spec(t, focused, panes@, typed@),
{
    let mut spans: Vec<Span> = Vec::new();
    let mut i: usize = 0;
    while i < panes.len()
        invariant
            i <= panes.len(),
            span_views(spans@) == pane_list_spec(t, focused, panes@.subrange(0, i as int)),
        decreases panes.len() - i,
    {
        let p = &panes[i];
        let on = p.pane == focused;
        let ghost before = spans@;
        let number = crate::text::decimal(p.number);
        spans.push(Span::styled(
            concatenated("spc+", number.as_str()),
            if on { theme::amber_bright(t).bold() } else { theme::dim(t) },
        ));
        let dotted = concatenated("\u{00B7}", p.label.as_str());
        spans.push(Span::styled(
            concatenated(dotted.as_str(), "  "),
            if on { theme::amber(t) } else { theme::muted(t) },
        ));
        proof {
            let done = panes@.subrange(0, i as int + 1);
            assert(done.drop_last() =~= panes@.subrange(0, i as int));
            assert(span_views(spans@) =~= span_views(before) + seq![
                ("spc+"@ + crate::text::decimal_spec(p.number as nat),
                    if on { bolded(colors(active(t).amber_bright, active(t).bg)) }
                    else { colors(active(t).dim, active(t).bg) }),
                ("\u{00B7}"@ + p.label@ + "  "@,
                    if on { colors(active(t).amber, active(t).bg) }
                    else { colors(active(t).muted, active(t).bg) }),
            ]);
        }
        i += 1;
    }
    assert(panes@.subrange(0, panes@.len() as int) =~= panes@);
    let ghost listed = spans@;
    if char_count(typed) > 0 {
        spans.push(Span::styled(String::from_str("clip:"), theme::dim(t)));
        spans.push(Span::styled(String::from_str(typed), theme::amber_bright(t).bold()));
        spans.push(Span::styled(String::from_str("_ "), theme::amber(t)));
    }
    spans.push(Span::styled(String::from_str(":q"), theme::dim(t)));
    assert(span_views(spans@) =~= panes_spec(t, focused, panes@, typed@));
    spans
}

} // verus!
