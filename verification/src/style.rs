//! Colours and styles as plain values.

use vstd::prelude::*;

verus! {

/// A terminal colour: a palette entry by number, a true colour, or the
/// terminal's own default.
#[derive(Clone, Copy, Debug, PartialEq, Eq, Structural)]
pub enum Color {
    Reset,
    Indexed(u8),
    Rgb(u8, u8, u8),
}

/// How a run of text is drawn: its colours, and three of the modifiers a
/// terminal can apply.
#[derive(Clone, Copy, Debug, PartialEq, Eq, Structural)]
pub struct Style {
    pub fg: Option<Color>,
    pub bg: Option<Color>,
    pub bold: bool,
    pub underlined: bool,
    pub crossed_out: bool,
}

impl Style {
    /// No colours and no modifiers.
    pub fn new() -> (s: Style)
        ensures
            s == Style::plain(),
    {
        Style { fg: None, bg: None, bold: false, underlined: false, crossed_out: false }
    }

    pub open spec fn plain() -> Style {
        Style { fg: None, bg: None, bold: false, underlined: false, crossed_out: false }
    }

    /// The same style with this foreground.
    pub fn fg(self, c: Color) -> (s: Style)
        ensures
            s == (Style { fg: Some(c), ..self }),
    {
        Style { fg: Some(c), ..self }
    }

    /// The same style with this background.
    pub fn bg(self, c: Color) -> (s: Style)
        ensures
            s == (Style { bg: Some(c), ..self }),
    {
        Style { bg: Some(c), ..self }
    }

    /// The same style, bold.
    pub fn bold(self) -> (s: Style)
        ensures
            s == (Style { bold: true, ..self }),
    {
        Style { bold: true, ..self }
    }
}

/// A style with only a background.
pub open spec fn on(bg: Color) -> Style {
    Style { fg: None, bg: Some(bg), bold: false, underlined: false, crossed_out: false }
}

/// A style with a foreground over a background and no modifiers.
pub open spec fn colors(fg: Color, bg: Color) -> Style {
    Style { fg: Some(fg), bg: Some(bg), bold: false, underlined: false, crossed_out: false }
}

/// The same style, bold.
pub open spec fn bolded(s: Style) -> Style {
    Style { bold: true, ..s }
}

} // verus!
