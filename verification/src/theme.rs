//! Phosphor's colour themes: which one is active, the nine palettes, and
//! every colour and style the screens are drawn in, derived from the active
//! palette.

use vstd::prelude::*;

use crate::config;
use crate::style::{Color, Style};

verus! {

/// How many themes there are.
pub const THEME_COUNT: usize = 9;

/// A theme's name, as the settings menu lists it.
pub open spec fn theme_name_spec(index: int) -> Seq<char> {
    if index == 0 { "Phosphor"@ }
    else if index == 1 { "SpaceVim"@ }
    else if index == 2 { "Gruvbox"@ }
    else if index == 3 { "Midnight"@ }
    else if index == 4 { "Dracula"@ }
    else if index == 5 { "Nord"@ }
    else if index == 6 { "Jellybean"@ }
    else if index == 7 { "Catppuccin"@ }
    else { "SpaceVim2"@ }
}

/// The theme the screens are drawn in. Always one of the nine.
pub struct ActiveTheme {
    index: usize,
}

impl ActiveTheme {
    #[verifier::type_invariant]
    spec fn in_range(self) -> bool {
        self.index < THEME_COUNT
    }

    /// Which theme is active, as an index into the list of names.
    pub closed spec fn index_spec(self) -> nat {
        self.index as nat
    }

    /// The theme a fresh start draws in: the first, until a preference is
    /// loaded.
    pub fn new() -> (t: ActiveTheme)
        ensures
            t.index_spec() == 0,
    {
        ActiveTheme { index: 0 }
    }
}

/// The active theme's index.
pub fn current_theme(t: &ActiveTheme) -> (i: usize)
    ensures
        i == t.index_spec(),
        i < THEME_COUNT,
{
    proof { use_type_invariant(t); }
    t.index
}

/// Make theme `index` the active one, counting round the list: any index
/// names a theme.
pub fn set_theme(t: &mut ActiveTheme, index: usize)
    ensures
        final(t).index_spec() == index % THEME_COUNT,
{
    t.index = index % THEME_COUNT;
}

/// Step to the next theme, wrapping from the last to the first.
pub fn next_theme(t: &mut ActiveTheme)
    ensures
        final(t).index_spec() == ((old(t).index_spec() + 1) as int) % (THEME_COUNT as int),
{
    let cur = current_theme(t);
    set_theme(t, (cur + 1) % THEME_COUNT);
}

/// The active theme's name.
pub fn theme_name(t: &ActiveTheme) -> (name: &'static str)
    ensures
        name@ == theme_name_spec(t.index_spec() as int),
{
    let i = current_theme(t);
    if i == 0 { "Phosphor" }
    else if i == 1 { "SpaceVim" }
    else if i == 2 { "Gruvbox" }
    else if i == 3 { "Midnight" }
    else if i == 4 { "Dracula" }
    else if i == 5 { "Nord" }
    else if i == 6 { "Jellybean" }
    else if i == 7 { "Catppuccin" }
    else { "SpaceVim2" }
}

/// The theme a configuration's `theme` field selects, for a theme that was
/// `before`: the one it names, counted round the list, or `before` when
/// there is no such field.
pub open spec fn applied(before: nat, field: Option<u64>) -> nat {
    match field {
        Some(idx) => ((idx as int) % (THEME_COUNT as int)) as nat,
        None => before,
    }
}

/// The theme a configuration text selects, for a theme that was `before`.
pub open spec fn loaded(before: nat, text: Seq<char>) -> nat {
    applied(before, config::config_field_spec(text, "theme"@))
}

/// Take the theme a configuration's `theme` field names, counted round the
/// list; with no such field the active theme stays as it was.
pub fn take_preference(t: &mut ActiveTheme, field: Option<u64>)
    ensures
        final(t).index_spec() == applied(old(t).index_spec(), field),
{
    if let Some(idx) = field {
        t.index = (idx % (THEME_COUNT as u64)) as usize;
    }
}

/// Take the theme a saved configuration names, if it names one; a
/// configuration that does not leaves the active theme as it was.
pub fn load_preference(t: &mut ActiveTheme, config_text: &str)
    ensures
        final(t).index_spec() == loaded(old(t).index_spec(), config_text@),
{
    take_preference(t, config::config_field(config_text, "theme"));
}

/// The configuration file's text for the active theme. Loading it back
/// selects this theme again, whatever theme is active when it is read.
pub fn preference_text(t: &ActiveTheme) -> (text: String)
    ensures
        text@ == config::config_text_spec("theme"@, t.index_spec() as u64),
        forall|before: nat| #[trigger] loaded(before, text@) == t.index_spec(),
{
    let i = current_theme(t);
    config::config_text("theme", i as u64)
}

/// One theme's colours.
#[derive(Clone, Copy, Debug, PartialEq, Eq, Structural)]
pub struct Palette {
    pub bg: Color,
    pub border: Color,
    pub dim: Color,
    pub muted: Color,
    pub normal: Color,
    pub bright: Color,
    pub highlight: Color,
    pub amber: Color,
    pub amber_bright: Color,
    pub rec_dim: Color,
    pub rec_active: Color,
    pub btn_active_bg: Color,
    pub btn_focused_bg: Color,
    pub btn_default_fg: Color,
    pub btn_default_bg: Color,
}

/// The palette of theme `index`; anything past the last is the first.
pub open spec fn palette_spec(index: int) -> Palette {
    if index == 1 {
        Palette {
            bg: Color::Rgb(30, 30, 40),
            border: Color::Rgb(50, 50, 65),
            dim: Color::Rgb(65, 65, 80),
            muted: Color::Rgb(90, 90, 110),
            normal: Color::Rgb(130, 130, 150),
            bright: Color::Rgb(180, 180, 200),
            highlight: Color::Rgb(210, 210, 230),
            amber: Color::Rgb(200, 155, 50),
            amber_bright: Color::Rgb(230, 185, 70),
            rec_dim: Color::Rgb(100, 30, 30),
            rec_active: Color::Rgb(200, 60, 60),
            btn_active_bg: Color::Rgb(40, 40, 55),
            btn_focused_bg: Color::Rgb(50, 50, 70),
            btn_default_fg: Color::Rgb(70, 70, 90),
            btn_default_bg: Color::Rgb(25, 25, 35),
        }
    } else if index == 2 {
        Palette {
            bg: Color::Rgb(40, 40, 40),
            border: Color::Rgb(60, 56, 54),
            dim: Color::Rgb(80, 73, 69),
            muted: Color::Rgb(102, 92, 84),
            normal: Color::Rgb(168, 153, 132),
            bright: Color::Rgb(213, 196, 161),
            highlight: Color::Rgb(235, 219, 178),
            amber: Color::Rgb(214, 153, 62),
            amber_bright: Color::Rgb(250, 189, 47),
            rec_dim: Color::Rgb(120, 30, 30),
            rec_active: Color::Rgb(204, 36, 29),
            btn_active_bg: Color::Rgb(50, 48, 47),
            btn_focused_bg: Color::Rgb(60, 56, 54),
            btn_default_fg: Color::Rgb(102, 92, 84),
            btn_default_bg: Color::Rgb(32, 32, 32),
        }
    } else if index == 3 {
        Palette {
            bg: Color::Rgb(15, 15, 30),
            border: Color::Rgb(30, 30, 55),
            dim: Color::Rgb(40, 40, 70),
            muted: Color::Rgb(60, 60, 100),
            normal: Color::Rgb(100, 100, 150),
            bright: Color::Rgb(150, 150, 200),
            highlight: Color::Rgb(190, 190, 230),
            amber: Color::Rgb(130, 100, 40),
            amber_bright: Color::Rgb(170, 140, 60),
            rec_dim: Color::Rgb(80, 20, 40),
            rec_active: Color::Rgb(180, 40, 60),
            btn_active_bg: Color::Rgb(25, 25, 50),
            btn_focused_bg: Color::Rgb(35, 35, 65),
            btn_default_fg: Color::Rgb(50, 50, 85),
            btn_default_bg: Color::Rgb(12, 12, 25),
        }
    } else if index == 4 {
        Palette {
            bg: Color::Rgb(40, 42, 54),
            border: Color::Rgb(68, 71, 90),
            dim: Color::Rgb(68, 71, 90),
            muted: Color::Rgb(98, 114, 164),
            normal: Color::Rgb(148, 150, 172),
            bright: Color::Rgb(208, 210, 224),
            highlight: Color::Rgb(248, 248, 242),
            amber: Color::Rgb(255, 184, 108),
            amber_bright: Color::Rgb(255, 214, 148),
            rec_dim: Color::Rgb(120, 30, 30),
            rec_active: Color::Rgb(255, 85, 85),
            btn_active_bg: Color::Rgb(55, 57, 72),
            btn_focused_bg: Color::Rgb(65, 67, 82),
            btn_default_fg: Color::Rgb(68, 71, 90),
            btn_default_bg: Color::Rgb(33, 34, 44),
        }
    } else if index == 5 {
        Palette {
            bg: Color::Rgb(46, 52, 64),
            border: Color::Rgb(59, 66, 82),
            dim: Color::Rgb(67, 76, 94),
            muted: Color::Rgb(76, 86, 106),
            normal: Color::Rgb(129, 161, 193),
            bright: Color::Rgb(216, 222, 233),
            highlight: Color::Rgb(236, 239, 244),
            amber: Color::Rgb(235, 203, 139),
            amber_bright: Color::Rgb(245, 224, 170),
            rec_dim: Color::Rgb(120, 50, 50),
            rec_active: Color::Rgb(191, 97, 106),
            btn_active_bg: Color::Rgb(59, 66, 82),
            btn_focused_bg: Color::Rgb(67, 76, 94),
            btn_default_fg: Color::Rgb(76, 86, 106),
            btn_default_bg: Color::Rgb(39, 43, 53),
        }
    } else if index == 6 {
        Palette {
            bg: Color::Rgb(18, 18, 18),
            border: Color::Rgb(48, 48, 48),
            dim: Color::Rgb(68, 68, 68),
            muted: Color::Rgb(98, 98, 98),
            normal: Color::Rgb(144, 144, 144),
            bright: Color::Rgb(198, 198, 198),
            highlight: Color::Rgb(218, 218, 218),
            amber: Color::Rgb(226, 185, 130),
            amber_bright: Color::Rgb(255, 215, 160),
            rec_dim: Color::Rgb(110, 35, 35),
            rec_active: Color::Rgb(207, 106, 76),
            btn_active_bg: Color::Rgb(32, 32, 32),
            btn_focused_bg: Color::Rgb(42, 42, 42),
            btn_default_fg: Color::Rgb(68, 68, 68),
            btn_default_bg: Color::Rgb(14, 14, 14),
        }
    } else if index == 7 {
        Palette {
            bg: Color::Rgb(30, 30, 46),
            border: Color::Rgb(49, 50, 68),
            dim: Color::Rgb(69, 71, 90),
            muted: Color::Rgb(88, 91, 112),
            normal: Color::Rgb(166, 173, 200),
            bright: Color::Rgb(205, 214, 244),
            highlight: Color::Rgb(245, 245, 255),
            amber: Color::Rgb(249, 226, 175),
            amber_bright: Color::Rgb(250, 236, 200),
            rec_dim: Color::Rgb(120, 40, 50),
            rec_active: Color::Rgb(243, 139, 168),
            btn_active_bg: Color::Rgb(40, 40, 58),
            btn_focused_bg: Color::Rgb(49, 50, 68),
            btn_default_fg: Color::Rgb(69, 71, 90),
            btn_default_bg: Color::Rgb(24, 24, 37),
        }
    } else if index == 8 {
        Palette {
            bg: Color::Rgb(38, 38, 38),
            border: Color::Rgb(48, 48, 48),
            dim: Color::Rgb(68, 68, 68),
            muted: Color::Rgb(78, 78, 78),
            normal: Color::Rgb(178, 178, 178),
            bright: Color::Rgb(204, 204, 204),
            highlight: Color::Rgb(230, 230, 230),
            amber: Color::Rgb(204, 153, 0),
            amber_bright: Color::Rgb(230, 180, 30),
            rec_dim: Color::Rgb(120, 25, 25),
            rec_active: Color::Rgb(204, 0, 0),
            btn_active_bg: Color::Rgb(48, 48, 48),
            btn_focused_bg: Color::Rgb(58, 58, 58),
            btn_default_fg: Color::Rgb(68, 68, 68),
            btn_default_bg: Color::Rgb(28, 28, 28),
        }
    } else {
        Palette {
            bg: Color::Rgb(11, 29, 40),
            border: Color::Rgb(15, 37, 53),
            dim: Color::Rgb(22, 46, 60),
            muted: Color::Rgb(26, 58, 76),
            normal: Color::Rgb(37, 78, 98),
            bright: Color::Rgb(56, 113, 127),
            highlight: Color::Rgb(88, 160, 176),
            amber: Color::Rgb(114, 88, 14),
            amber_bright: Color::Rgb(150, 116, 20),
            rec_dim: Color::Rgb(90, 26, 26),
            rec_active: Color::Rgb(180, 50, 50),
            btn_active_bg: Color::Rgb(12, 22, 32),
            btn_focused_bg: Color::Rgb(25, 40, 50),
            btn_default_fg: Color::Rgb(18, 50, 72),
            btn_default_bg: Color::Rgb(7, 17, 28),
        }
    }
}

/// The eight track colours of theme `index`.
pub open spec fn track_colors_spec(index: int, k: int) -> Color {
    if index == 1 {
        if k == 0 { Color::Rgb(65, 166, 181) } else if k == 1 { Color::Rgb(180, 142, 60) } else if k == 2 { Color::Rgb(130, 170, 100) } else if k == 3 { Color::Rgb(100, 130, 200) } else if k == 4 { Color::Rgb(190, 100, 140) } else if k == 5 { Color::Rgb(80, 180, 130) } else if k == 6 { Color::Rgb(200, 120, 80) } else { Color::Rgb(140, 110, 190) }
    } else if index == 2 {
        if k == 0 { Color::Rgb(104, 157, 106) } else if k == 1 { Color::Rgb(214, 153, 62) } else if k == 2 { Color::Rgb(69, 133, 136) } else if k == 3 { Color::Rgb(177, 98, 134) } else if k == 4 { Color::Rgb(215, 186, 125) } else if k == 5 { Color::Rgb(131, 165, 152) } else if k == 6 { Color::Rgb(204, 36, 29) } else { Color::Rgb(152, 151, 26) }
    } else if index == 3 {
        if k == 0 { Color::Rgb(80, 140, 200) } else if k == 1 { Color::Rgb(100, 180, 160) } else if k == 2 { Color::Rgb(180, 130, 80) } else if k == 3 { Color::Rgb(150, 100, 180) } else if k == 4 { Color::Rgb(80, 170, 120) } else if k == 5 { Color::Rgb(200, 100, 100) } else if k == 6 { Color::Rgb(120, 160, 80) } else { Color::Rgb(160, 120, 160) }
    } else if index == 4 {
        if k == 0 { Color::Rgb(139, 233, 253) } else if k == 1 { Color::Rgb(80, 250, 123) } else if k == 2 { Color::Rgb(255, 184, 108) } else if k == 3 { Color::Rgb(189, 147, 249) } else if k == 4 { Color::Rgb(255, 121, 198) } else if k == 5 { Color::Rgb(241, 250, 140) } else if k == 6 { Color::Rgb(255, 85, 85) } else { Color::Rgb(98, 114, 164) }
    } else if index == 5 {
        if k == 0 { Color::Rgb(136, 192, 208) } else if k == 1 { Color::Rgb(163, 190, 140) } else if k == 2 { Color::Rgb(208, 135, 112) } else if k == 3 { Color::Rgb(180, 142, 173) } else if k == 4 { Color::Rgb(191, 97, 106) } else if k == 5 { Color::Rgb(235, 203, 139) } else if k == 6 { Color::Rgb(129, 161, 193) } else { Color::Rgb(143, 188, 187) }
    } else if index == 6 {
        if k == 0 { Color::Rgb(143, 191, 220) } else if k == 1 { Color::Rgb(163, 211, 156) } else if k == 2 { Color::Rgb(226, 185, 130) } else if k == 3 { Color::Rgb(207, 106, 76) } else if k == 4 { Color::Rgb(178, 148, 187) } else if k == 5 { Color::Rgb(130, 196, 183) } else if k == 6 { Color::Rgb(222, 165, 132) } else { Color::Rgb(112, 185, 186) }
    } else if index == 7 {
        if k == 0 { Color::Rgb(137, 220, 235) } else if k == 1 { Color::Rgb(166, 227, 161) } else if k == 2 { Color::Rgb(249, 226, 175) } else if k == 3 { Color::Rgb(203, 166, 247) } else if k == 4 { Color::Rgb(245, 194, 231) } else if k == 5 { Color::Rgb(148, 226, 213) } else if k == 6 { Color::Rgb(250, 179, 135) } else { Color::Rgb(116, 199, 236) }
    } else if index == 8 {
        if k == 0 { Color::Rgb(51, 102, 204) } else if k == 1 { Color::Rgb(0, 153, 102) } else if k == 2 { Color::Rgb(204, 153, 0) } else if k == 3 { Color::Rgb(204, 51, 153) } else if k == 4 { Color::Rgb(153, 102, 204) } else if k == 5 { Color::Rgb(0, 102, 102) } else if k == 6 { Color::Rgb(204, 102, 0) } else { Color::Rgb(102, 153, 255) }
    } else {
        if k == 0 { Color::Rgb(56, 148, 142) } else if k == 1 { Color::Rgb(108, 130, 60) } else if k == 2 { Color::Rgb(140, 100, 50) } else if k == 3 { Color::Rgb(80, 110, 160) } else if k == 4 { Color::Rgb(130, 80, 130) } else if k == 5 { Color::Rgb(60, 140, 100) } else if k == 6 { Color::Rgb(150, 90, 70) } else { Color::Rgb(70, 120, 140) }
    }
}

/// The palette of theme `index`.
/// **A theme's name is the name of the palette it draws in.** For every
/// one of the nine themes, it is called Phosphor exactly when the screen is
/// on Phosphor's blue-black, SpaceVim on SpaceVim's slate, Gruvbox on
/// Gruvbox's grey, Midnight on its navy, Dracula on Dracula's purple-grey,
/// Nord on the polar night, Jellybean on near-black, Catppuccin on the mocha
/// base, and SpaceVim2 on its charcoal.
pub proof fn lemma_name_matches_palette()
    ensures
        forall|i: int| 0 <= i < THEME_COUNT ==> {
            &&& (theme_name_spec(i) == "Phosphor"@ <==> palette_spec(i).bg == Color::Rgb(11, 29, 40))
            &&& (theme_name_spec(i) == "SpaceVim"@ <==> palette_spec(i).bg == Color::Rgb(30, 30, 40))
            &&& (theme_name_spec(i) == "Gruvbox"@ <==> palette_spec(i).bg == Color::Rgb(40, 40, 40))
            &&& (theme_name_spec(i) == "Midnight"@ <==> palette_spec(i).bg == Color::Rgb(15, 15, 30))
            &&& (theme_name_spec(i) == "Dracula"@ <==> palette_spec(i).bg == Color::Rgb(40, 42, 54))
            &&& (theme_name_spec(i) == "Nord"@ <==> palette_spec(i).bg == Color::Rgb(46, 52, 64))
            &&& (theme_name_spec(i) == "Jellybean"@ <==> palette_spec(i).bg == Color::Rgb(18, 18, 18))
            &&& (theme_name_spec(i) == "Catppuccin"@ <==> palette_spec(i).bg == Color::Rgb(30, 30, 46))
            &&& (theme_name_spec(i) == "SpaceVim2"@ <==> palette_spec(i).bg == Color::Rgb(38, 38, 38))
        },
{
    reveal_strlit("Phosphor");
    reveal_strlit("SpaceVim");
    reveal_strlit("Gruvbox");
    reveal_strlit("Midnight");
    reveal_strlit("Dracula");
    reveal_strlit("Nord");
    reveal_strlit("Jellybean");
    reveal_strlit("Catppuccin");
    reveal_strlit("SpaceVim2");
    assert("Phosphor"@[0] == 'P' && "Phosphor"@.len() == 8);
    assert("SpaceVim"@[0] == 'S' && "SpaceVim"@.len() == 8);
    assert("Gruvbox"@[0] == 'G' && "Gruvbox"@.len() == 7);
    assert("Midnight"@[0] == 'M' && "Midnight"@.len() == 8);
    assert("Dracula"@[0] == 'D' && "Dracula"@.len() == 7);
    assert("Nord"@[0] == 'N' && "Nord"@.len() == 4);
    assert("Jellybean"@[0] == 'J' && "Jellybean"@.len() == 9);
    assert("Catppuccin"@[0] == 'C' && "Catppuccin"@.len() == 10);
    assert("SpaceVim2"@[0] == 'S' && "SpaceVim2"@.len() == 9);
}

pub fn palette_of(index: usize) -> (p: Palette)
    ensures
        p == palette_spec(index as int),
{
    if index == 1 {
        Palette {
            bg: Color::Rgb(30, 30, 40),
            border: Color::Rgb(50, 50, 65),
            dim: Color::Rgb(65, 65, 80),
            muted: Color::Rgb(90, 90, 110),
            normal: Color::Rgb(130, 130, 150),
            bright: Color::Rgb(180, 180, 200),
            highlight: Color::Rgb(210, 210, 230),
            amber: Color::Rgb(200, 155, 50),
            amber_bright: Color::Rgb(230, 185, 70),
            rec_dim: Color::Rgb(100, 30, 30),
            rec_active: Color::Rgb(200, 60, 60),
            btn_active_bg: Color::Rgb(40, 40, 55),
            btn_focused_bg: Color::Rgb(50, 50, 70),
            btn_default_fg: Color::Rgb(70, 70, 90),
            btn_default_bg: Color::Rgb(25, 25, 35),
        }
    } else if index == 2 {
        Palette {
            bg: Color::Rgb(40, 40, 40),
            border: Color::Rgb(60, 56, 54),
            dim: Color::Rgb(80, 73, 69),
            muted: Color::Rgb(102, 92, 84),
            normal: Color::Rgb(168, 153, 132),
            bright: Color::Rgb(213, 196, 161),
            highlight: Color::Rgb(235, 219, 178),
            amber: Color::Rgb(214, 153, 62),
            amber_bright: Color::Rgb(250, 189, 47),
            rec_dim: Color::Rgb(120, 30, 30),
            rec_active: Color::Rgb(204, 36, 29),
            btn_active_bg: Color::Rgb(50, 48, 47),
            btn_focused_bg: Color::Rgb(60, 56, 54),
            btn_default_fg: Color::Rgb(102, 92, 84),
            btn_default_bg: Color::Rgb(32, 32, 32),
        }
    } else if index == 3 {
        Palette {
            bg: Color::Rgb(15, 15, 30),
            border: Color::Rgb(30, 30, 55),
            dim: Color::Rgb(40, 40, 70),
            muted: Color::Rgb(60, 60, 100),
            normal: Color::Rgb(100, 100, 150),
            bright: Color::Rgb(150, 150, 200),
            highlight: Color::Rgb(190, 190, 230),
            amber: Color::Rgb(130, 100, 40),
            amber_bright: Color::Rgb(170, 140, 60),
            rec_dim: Color::Rgb(80, 20, 40),
            rec_active: Color::Rgb(180, 40, 60),
            btn_active_bg: Color::Rgb(25, 25, 50),
            btn_focused_bg: Color::Rgb(35, 35, 65),
            btn_default_fg: Color::Rgb(50, 50, 85),
            btn_default_bg: Color::Rgb(12, 12, 25),
        }
    } else if index == 4 {
        Palette {
            bg: Color::Rgb(40, 42, 54),
            border: Color::Rgb(68, 71, 90),
            dim: Color::Rgb(68, 71, 90),
            muted: Color::Rgb(98, 114, 164),
            normal: Color::Rgb(148, 150, 172),
            bright: Color::Rgb(208, 210, 224),
            highlight: Color::Rgb(248, 248, 242),
            amber: Color::Rgb(255, 184, 108),
            amber_bright: Color::Rgb(255, 214, 148),
            rec_dim: Color::Rgb(120, 30, 30),
            rec_active: Color::Rgb(255, 85, 85),
            btn_active_bg: Color::Rgb(55, 57, 72),
            btn_focused_bg: Color::Rgb(65, 67, 82),
            btn_default_fg: Color::Rgb(68, 71, 90),
            btn_default_bg: Color::Rgb(33, 34, 44),
        }
    } else if index == 5 {
        Palette {
            bg: Color::Rgb(46, 52, 64),
            border: Color::Rgb(59, 66, 82),
            dim: Color::Rgb(67, 76, 94),
            muted: Color::Rgb(76, 86, 106),
            normal: Color::Rgb(129, 161, 193),
            bright: Color::Rgb(216, 222, 233),
            highlight: Color::Rgb(236, 239, 244),
            amber: Color::Rgb(235, 203, 139),
            amber_bright: Color::Rgb(245, 224, 170),
            rec_dim: Color::Rgb(120, 50, 50),
            rec_active: Color::Rgb(191, 97, 106),
            btn_active_bg: Color::Rgb(59, 66, 82),
            btn_focused_bg: Color::Rgb(67, 76, 94),
            btn_default_fg: Color::Rgb(76, 86, 106),
            btn_default_bg: Color::Rgb(39, 43, 53),
        }
    } else if index == 6 {
        Palette {
            bg: Color::Rgb(18, 18, 18),
            border: Color::Rgb(48, 48, 48),
            dim: Color::Rgb(68, 68, 68),
            muted: Color::Rgb(98, 98, 98),
            normal: Color::Rgb(144, 144, 144),
            bright: Color::Rgb(198, 198, 198),
            highlight: Color::Rgb(218, 218, 218),
            amber: Color::Rgb(226, 185, 130),
            amber_bright: Color::Rgb(255, 215, 160),
            rec_dim: Color::Rgb(110, 35, 35),
            rec_active: Color::Rgb(207, 106, 76),
            btn_active_bg: Color::Rgb(32, 32, 32),
            btn_focused_bg: Color::Rgb(42, 42, 42),
            btn_default_fg: Color::Rgb(68, 68, 68),
            btn_default_bg: Color::Rgb(14, 14, 14),
        }
    } else if index == 7 {
        Palette {
            bg: Color::Rgb(30, 30, 46),
            border: Color::Rgb(49, 50, 68),
            dim: Color::Rgb(69, 71, 90),
            muted: Color::Rgb(88, 91, 112),
            normal: Color::Rgb(166, 173, 200),
            bright: Color::Rgb(205, 214, 244),
            highlight: Color::Rgb(245, 245, 255),
            amber: Color::Rgb(249, 226, 175),
            amber_bright: Color::Rgb(250, 236, 200),
            rec_dim: Color::Rgb(120, 40, 50),
            rec_active: Color::Rgb(243, 139, 168),
            btn_active_bg: Color::Rgb(40, 40, 58),
            btn_focused_bg: Color::Rgb(49, 50, 68),
            btn_default_fg: Color::Rgb(69, 71, 90),
            btn_default_bg: Color::Rgb(24, 24, 37),
        }
    } else if index == 8 {
        Palette {
            bg: Color::Rgb(38, 38, 38),
            border: Color::Rgb(48, 48, 48),
            dim: Color::Rgb(68, 68, 68),
            muted: Color::Rgb(78, 78, 78),
            normal: Color::Rgb(178, 178, 178),
            bright: Color::Rgb(204, 204, 204),
            highlight: Color::Rgb(230, 230, 230),
            amber: Color::Rgb(204, 153, 0),
            amber_bright: Color::Rgb(230, 180, 30),
            rec_dim: Color::Rgb(120, 25, 25),
            rec_active: Color::Rgb(204, 0, 0),
            btn_active_bg: Color::Rgb(48, 48, 48),
            btn_focused_bg: Color::Rgb(58, 58, 58),
            btn_default_fg: Color::Rgb(68, 68, 68),
            btn_default_bg: Color::Rgb(28, 28, 28),
        }
    } else {
        Palette {
            bg: Color::Rgb(11, 29, 40),
            border: Color::Rgb(15, 37, 53),
            dim: Color::Rgb(22, 46, 60),
            muted: Color::Rgb(26, 58, 76),
            normal: Color::Rgb(37, 78, 98),
            bright: Color::Rgb(56, 113, 127),
            highlight: Color::Rgb(88, 160, 176),
            amber: Color::Rgb(114, 88, 14),
            amber_bright: Color::Rgb(150, 116, 20),
            rec_dim: Color::Rgb(90, 26, 26),
            rec_active: Color::Rgb(180, 50, 50),
            btn_active_bg: Color::Rgb(12, 22, 32),
            btn_focused_bg: Color::Rgb(25, 40, 50),
            btn_default_fg: Color::Rgb(18, 50, 72),
            btn_default_bg: Color::Rgb(7, 17, 28),
        }
    }
}

fn track_color_of(index: usize, k: usize) -> (c: Color)
    ensures
        c == track_colors_spec(index as int, k as int),
{
    if index == 1 {
        if k == 0 { Color::Rgb(65, 166, 181) } else if k == 1 { Color::Rgb(180, 142, 60) } else if k == 2 { Color::Rgb(130, 170, 100) } else if k == 3 { Color::Rgb(100, 130, 200) } else if k == 4 { Color::Rgb(190, 100, 140) } else if k == 5 { Color::Rgb(80, 180, 130) } else if k == 6 { Color::Rgb(200, 120, 80) } else { Color::Rgb(140, 110, 190) }
    } else if index == 2 {
        if k == 0 { Color::Rgb(104, 157, 106) } else if k == 1 { Color::Rgb(214, 153, 62) } else if k == 2 { Color::Rgb(69, 133, 136) } else if k == 3 { Color::Rgb(177, 98, 134) } else if k == 4 { Color::Rgb(215, 186, 125) } else if k == 5 { Color::Rgb(131, 165, 152) } else if k == 6 { Color::Rgb(204, 36, 29) } else { Color::Rgb(152, 151, 26) }
    } else if index == 3 {
        if k == 0 { Color::Rgb(80, 140, 200) } else if k == 1 { Color::Rgb(100, 180, 160) } else if k == 2 { Color::Rgb(180, 130, 80) } else if k == 3 { Color::Rgb(150, 100, 180) } else if k == 4 { Color::Rgb(80, 170, 120) } else if k == 5 { Color::Rgb(200, 100, 100) } else if k == 6 { Color::Rgb(120, 160, 80) } else { Color::Rgb(160, 120, 160) }
    } else if index == 4 {
        if k == 0 { Color::Rgb(139, 233, 253) } else if k == 1 { Color::Rgb(80, 250, 123) } else if k == 2 { Color::Rgb(255, 184, 108) } else if k == 3 { Color::Rgb(189, 147, 249) } else if k == 4 { Color::Rgb(255, 121, 198) } else if k == 5 { Color::Rgb(241, 250, 140) } else if k == 6 { Color::Rgb(255, 85, 85) } else { Color::Rgb(98, 114, 164) }
    } else if index == 5 {
        if k == 0 { Color::Rgb(136, 192, 208) } else if k == 1 { Color::Rgb(163, 190, 140) } else if k == 2 { Color::Rgb(208, 135, 112) } else if k == 3 { Color::Rgb(180, 142, 173) } else if k == 4 { Color::Rgb(191, 97, 106) } else if k == 5 { Color::Rgb(235, 203, 139) } else if k == 6 { Color::Rgb(129, 161, 193) } else { Color::Rgb(143, 188, 187) }
    } else if index == 6 {
        if k == 0 { Color::Rgb(143, 191, 220) } else if k == 1 { Color::Rgb(163, 211, 156) } else if k == 2 { Color::Rgb(226, 185, 130) } else if k == 3 { Color::Rgb(207, 106, 76) } else if k == 4 { Color::Rgb(178, 148, 187) } else if k == 5 { Color::Rgb(130, 196, 183) } else if k == 6 { Color::Rgb(222, 165, 132) } else { Color::Rgb(112, 185, 186) }
    } else if index == 7 {
        if k == 0 { Color::Rgb(137, 220, 235) } else if k == 1 { Color::Rgb(166, 227, 161) } else if k == 2 { Color::Rgb(249, 226, 175) } else if k == 3 { Color::Rgb(203, 166, 247) } else if k == 4 { Color::Rgb(245, 194, 231) } else if k == 5 { Color::Rgb(148, 226, 213) } else if k == 6 { Color::Rgb(250, 179, 135) } else { Color::Rgb(116, 199, 236) }
    } else if index == 8 {
        if k == 0 { Color::Rgb(51, 102, 204) } else if k == 1 { Color::Rgb(0, 153, 102) } else if k == 2 { Color::Rgb(204, 153, 0) } else if k == 3 { Color::Rgb(204, 51, 153) } else if k == 4 { Color::Rgb(153, 102, 204) } else if k == 5 { Color::Rgb(0, 102, 102) } else if k == 6 { Color::Rgb(204, 102, 0) } else { Color::Rgb(102, 153, 255) }
    } else {
        if k == 0 { Color::Rgb(56, 148, 142) } else if k == 1 { Color::Rgb(108, 130, 60) } else if k == 2 { Color::Rgb(140, 100, 50) } else if k == 3 { Color::Rgb(80, 110, 160) } else if k == 4 { Color::Rgb(130, 80, 130) } else if k == 5 { Color::Rgb(60, 140, 100) } else if k == 6 { Color::Rgb(150, 90, 70) } else { Color::Rgb(70, 120, 140) }
    }
}

/// The active theme's palette.
pub open spec fn active(t: &ActiveTheme) -> Palette {
    palette_spec(t.index_spec() as int)
}

fn palette(t: &ActiveTheme) -> (p: Palette)
    ensures
        p == active(t),
{
    palette_of(current_theme(t))
}


/// The red channel of a colour; a colour with no channels reads as mid grey.
pub open spec fn red_of(c: Color) -> u8 {
    match c { Color::Rgb(r, _, _) => r, _ => 128 }
}

pub open spec fn green_of(c: Color) -> u8 {
    match c { Color::Rgb(_, g, _) => g, _ => 128 }
}

pub open spec fn blue_of(c: Color) -> u8 {
    match c { Color::Rgb(_, _, b) => b, _ => 128 }
}

/// `a + b`, held at the top of a channel.
pub open spec fn add_sat(a: u8, b: u8) -> u8 {
    if a + b > 255 { 255u8 } else { (a + b) as u8 }
}

/// A colour with a flat amount added to each channel.
pub open spec fn lighten_spec(c: Color, amt: u8) -> Color {
    Color::Rgb(add_sat(red_of(c), amt), add_sat(green_of(c), amt), add_sat(blue_of(c), amt))
}

/// One channel mixed from `a` toward `b` by `pct` percent.
pub open spec fn mix(a: u8, b: u8, pct: u16) -> u8 {
    ((a * (100 - pct) + b * pct) / 100) as u8
}

/// Two colours mixed: `pct` 0 is all `c1`, 100 all `c2`.
pub open spec fn blend_spec(c1: Color, c2: Color, pct: u16) -> Color {
    Color::Rgb(
        mix(red_of(c1), red_of(c2), pct),
        mix(green_of(c1), green_of(c2), pct),
        mix(blue_of(c1), blue_of(c2), pct),
    )
}

/// One channel scaled to `pct` percent, kept to its low eight bits.
pub open spec fn scale(a: u8, pct: u16) -> u8 {
    ((a * pct) / 100) as u8
}

/// A colour scaled to `pct` percent of itself.
pub open spec fn dim_color_spec(c: Color, pct: u16) -> Color {
    Color::Rgb(scale(red_of(c), pct), scale(green_of(c), pct), scale(blue_of(c), pct))
}

/// Whether scaling `c` by `pct` stays inside the arithmetic of a channel.
pub open spec fn dims_safely(c: Color, pct: u16) -> bool {
    &&& red_of(c) * pct <= u16::MAX
    &&& green_of(c) * pct <= u16::MAX
    &&& blue_of(c) * pct <= u16::MAX
}

/// Scaling by anything up to a little over two and a half times fits.
pub proof fn lemma_dims_safely(c: Color, pct: u16)
    requires
        pct <= 257,
    ensures
        dims_safely(c, pct),
{
    let (r, g, b) = (red_of(c), green_of(c), blue_of(c));
    assert(r * pct <= u16::MAX && g * pct <= u16::MAX && b * pct <= u16::MAX) by (nonlinear_arith)
        requires
            r <= 255,
            g <= 255,
            b <= 255,
            pct <= 257,
    ;
}

pub fn tc_r(c: Color) -> (r: u8)
    ensures
        r == red_of(c),
{
    if let Color::Rgb(r, _, _) = c { r } else { 128 }
}

pub fn tc_g(c: Color) -> (g: u8)
    ensures
        g == green_of(c),
{
    if let Color::Rgb(_, g, _) = c { g } else { 128 }
}

pub fn tc_b(c: Color) -> (b: u8)
    ensures
        b == blue_of(c),
{
    if let Color::Rgb(_, _, b) = c { b } else { 128 }
}

fn add_sat_u8(a: u8, b: u8) -> (r: u8)
    ensures
        r == add_sat(a, b),
{
    if a as u16 + b as u16 > 255 { 255 } else { a + b }
}

/// Lighten a colour by adding a flat amount to each channel.
fn lighten(c: Color, amt: u8) -> (l: Color)
    ensures
        l == lighten_spec(c, amt),
{
    Color::Rgb(add_sat_u8(tc_r(c), amt), add_sat_u8(tc_g(c), amt), add_sat_u8(tc_b(c), amt))
}

fn mix_u8(a: u8, b: u8, pct: u16) -> (m: u8)
    requires
        pct <= 100,
    ensures
        m == mix(a, b, pct),
        m <= 255,
{
    assert(a as u16 * (100 - pct) + b as u16 * pct <= 25500) by (nonlinear_arith)
        requires a <= 255, b <= 255, pct <= 100;
    let v = (a as u16 * (100 - pct) + b as u16 * pct) / 100;
    v as u8
}

/// Blend two colours: `pct` 0 is all `c1`, 100 is all `c2`.
fn blend(c1: Color, c2: Color, pct: u16) -> (c: Color)
    requires
        pct <= 100,
    ensures
        c == blend_spec(c1, c2, pct),
{
    Color::Rgb(
        mix_u8(tc_r(c1), tc_r(c2), pct),
        mix_u8(tc_g(c1), tc_g(c2), pct),
        mix_u8(tc_b(c1), tc_b(c2), pct),
    )
}

fn scale_u8(a: u8, pct: u16) -> (s: u8)
    requires
        a * pct <= u16::MAX,
    ensures
        s == scale(a, pct),
{
    #[verifier::truncate]
    ((a as u16 * pct / 100) as u8)
}

/// Dim a colour to a percentage of itself.
pub fn dim_color(c: Color, pct: u16) -> (d: Color)
    requires
        dims_safely(c, pct),
    ensures
        d == dim_color_spec(c, pct),
{
    Color::Rgb(scale_u8(tc_r(c), pct), scale_u8(tc_g(c), pct), scale_u8(tc_b(c), pct))
}

/// The background colour of the active theme.
pub fn bg_val(t: &ActiveTheme) -> (c: Color)
    ensures
        c == active(t).bg,
{
    palette(t).bg
}

/// The dim colour of the active theme.
pub fn dim_color_val(t: &ActiveTheme) -> (c: Color)
    ensures
        c == active(t).dim,
{
    palette(t).dim
}

/// The amber of the active theme.
pub fn amber_val(t: &ActiveTheme) -> (c: Color)
    ensures
        c == active(t).amber,
{
    palette(t).amber
}

/// The bright amber of the active theme.
pub fn amber_bright_val(t: &ActiveTheme) -> (c: Color)
    ensures
        c == active(t).amber_bright,
{
    palette(t).amber_bright
}

/// The normal text colour of the active theme.
pub fn normal_val(t: &ActiveTheme) -> (c: Color)
    ensures
        c == active(t).normal,
{
    palette(t).normal
}

/// The recording red of the active theme.
pub fn rec_active_val(t: &ActiveTheme) -> (c: Color)
    ensures
        c == active(t).rec_active,
{
    palette(t).rec_active
}

/// Track `index`'s colour, counting round the theme's eight.
pub fn track_color(t: &ActiveTheme, index: usize) -> (c: Color)
    ensures
        c == track_colors_spec(t.index_spec() as int, (index % 8) as int),
{
    track_color_of(current_theme(t), index % 8)
}

pub fn bg(t: &ActiveTheme) -> (s: Style)
    ensures
        s == crate::style::on(active(t).bg),
{
    Style::new().bg(palette(t).bg)
}

pub fn dim(t: &ActiveTheme) -> (s: Style)
    ensures
        s == crate::style::colors(active(t).dim, active(t).bg),
{
    let p = palette(t);
    Style::new().fg(p.dim).bg(p.bg)
}

pub fn muted(t: &ActiveTheme) -> (s: Style)
    ensures
        s == crate::style::colors(active(t).muted, active(t).bg),
{
    let p = palette(t);
    Style::new().fg(p.muted).bg(p.bg)
}

pub fn normal(t: &ActiveTheme) -> (s: Style)
    ensures
        s == crate::style::colors(active(t).normal, active(t).bg),
{
    let p = palette(t);
    Style::new().fg(p.normal).bg(p.bg)
}

pub fn amber(t: &ActiveTheme) -> (s: Style)
    ensures
        s == crate::style::colors(active(t).amber, active(t).bg),
{
    let p = palette(t);
    Style::new().fg(p.amber).bg(p.bg)
}

pub fn amber_bright(t: &ActiveTheme) -> (s: Style)
    ensures
        s == crate::style::colors(active(t).amber_bright, active(t).bg),
{
    let p = palette(t);
    Style::new().fg(p.amber_bright).bg(p.bg)
}

pub fn branding(t: &ActiveTheme) -> (s: Style)
    ensures
        s == crate::style::bolded(crate::style::colors(active(t).bright, active(t).bg)),
{
    let p = palette(t);
    Style::new().fg(p.bright).bg(p.bg).bold()
}

pub fn border_style(t: &ActiveTheme) -> (s: Style)
    ensures
        s == crate::style::colors(active(t).border, active(t).bg),
{
    let p = palette(t);
    Style::new().fg(p.border).bg(p.bg)
}

/// Piano roll row background under the cursor.
pub fn piano_cursor_bg(t: &ActiveTheme) -> (c: Color)
    ensures
        c == lighten_spec(active(t).bg, 15),
{
    lighten(palette(t).bg, 15)
}

/// Piano roll row background on a black key.
pub fn piano_black_bg(t: &ActiveTheme) -> (c: Color)
    ensures
        c == lighten_spec(active(t).bg, 2),
{
    lighten(palette(t).bg, 2)
}

/// Piano roll row background on a white key.
pub fn piano_white_bg(t: &ActiveTheme) -> (c: Color)
    ensures
        c == lighten_spec(active(t).bg, 5),
{
    lighten(palette(t).bg, 5)
}

/// Column highlight background.
pub fn col_highlight_bg(t: &ActiveTheme) -> (c: Color)
    ensures
        c == lighten_spec(active(t).bg, 8),
{
    lighten(palette(t).bg, 8)
}

/// Where the cursor's row and column cross.
pub fn col_row_bg(t: &ActiveTheme) -> (c: Color)
    ensures
        c == lighten_spec(active(t).bg, 18),
{
    lighten(palette(t).bg, 18)
}

/// A selection: a warm tint of amber on the background.
pub fn selection_bg(t: &ActiveTheme) -> (c: Color)
    ensures
        c == blend_spec(active(t).bg, active(t).amber, 30),
{
    let p = palette(t);
    blend(p.bg, p.amber, 30)
}

/// A selection with the cursor on it.
pub fn selection_cursor_bg(t: &ActiveTheme) -> (c: Color)
    ensures
        c == blend_spec(active(t).bg, active(t).amber, 45),
{
    let p = palette(t);
    blend(p.bg, p.amber, 45)
}

/// Gridline on a bar.
pub fn grid_major(t: &ActiveTheme) -> (c: Color)
    ensures
        c == lighten_spec(active(t).bg, 10),
{
    lighten(palette(t).bg, 10)
}

/// Gridline on a beat.
pub fn grid_minor(t: &ActiveTheme) -> (c: Color)
    ensures
        c == lighten_spec(active(t).bg, 6),
{
    lighten(palette(t).bg, 6)
}

/// Modal and overlay background.
pub fn overlay_bg(t: &ActiveTheme) -> (c: Color)
    ensures
        c == lighten_spec(active(t).bg, 4),
{
    lighten(palette(t).bg, 4)
}

/// Transport highlight background.
pub fn transport_hi_bg(t: &ActiveTheme) -> (c: Color)
    ensures
        c == lighten_spec(active(t).bg, 12),
{
    lighten(palette(t).bg, 12)
}

/// The green a soloed track's `s` is drawn in, the same in every theme.
pub fn solo_active_fg() -> (c: Color)
    ensures
        c == Color::Rgb(84, 148, 46),
{
    Color::Rgb(84, 148, 46)
}

pub fn solo_active_bg(t: &ActiveTheme) -> (c: Color)
    ensures
        c == lighten_spec(active(t).bg, 6),
{
    lighten(palette(t).bg, 6)
}

pub fn solo_focused_bg(t: &ActiveTheme) -> (c: Color)
    ensures
        c == lighten_spec(active(t).bg, 10),
{
    lighten(palette(t).bg, 10)
}

/// The playhead, the same bright yellow in every theme.
pub fn playhead_fg() -> (c: Color)
    ensures
        c == Color::Rgb(255, 200, 50),
{
    Color::Rgb(255, 200, 50)
}

/// The playhead's background: a fifth of the way from the theme's
/// background to its foreground.
pub fn playhead_bg(t: &ActiveTheme) -> (c: Color)
    ensures
        c == blend_spec(active(t).bg, Color::Rgb(255, 200, 50), 20),
{
    blend(palette(t).bg, Color::Rgb(255, 200, 50), 20)
}

/// The style of a track header button: the track's colour, bold, while it
/// is on; the focus background while the cursor is on it; the resting
/// button otherwise.
pub open spec fn btn_style_spec(t: &ActiveTheme, active_btn: bool, focused: bool, tc: Color) -> Style {
    if active_btn {
        crate::style::bolded(crate::style::colors(
            dim_color_spec(tc, 80),
            if focused { active(t).btn_focused_bg } else { active(t).btn_active_bg },
        ))
    } else if focused {
        crate::style::colors(active(t).normal, active(t).btn_focused_bg)
    } else {
        crate::style::colors(active(t).btn_default_fg, active(t).btn_default_bg)
    }
}

/// The style of a track header button (fx, volume, mute, solo).
pub fn btn_style(t: &ActiveTheme, active_btn: bool, focused: bool, tc: Color) -> (s: Style)
    ensures
        s == btn_style_spec(t, active_btn, focused, tc),
{
    let p = palette(t);
    if active_btn {
        assert(dims_safely(tc, 80));
        Style::new()
            .fg(dim_color(tc, 80))
            .bg(if focused { p.btn_focused_bg } else { p.btn_active_bg })
            .bold()
    } else if focused {
        Style::new().fg(p.normal).bg(p.btn_focused_bg)
    } else {
        Style::new().fg(p.btn_default_fg).bg(p.btn_default_bg)
    }
}

} // verus!
