//! Colour themes: semantic roles mapped to terminal colours.
use vstd::prelude::*;

use crate::text::{chars_of, eq_str};

verus! {

/// A terminal colour.
#[derive(Debug, Clone, Copy, PartialEq, Eq, Structural)]
pub enum Color {
    Black,
    Red,
    Green,
    Yellow,
    Magenta,
    Cyan,
    White,
    DarkGray,
    /// An entry of the 256-colour palette.
    Indexed(u8),
    Rgb(u8, u8, u8),
}

/// Semantic color roles for the TUI. The renderer maps every hardcoded color
/// to a role so themes can re-skin the whole UI without touching draw code.
#[derive(Clone, Copy, Debug)]
pub struct Theme {
    pub name: &'static str,
    pub text: Color,
    pub dim: Color,
    pub accent: Color,
    pub success: Color,
    pub error: Color,
    pub running: Color,
    pub reasoning: Color,
    pub border: Color,
    pub selection_fg: Color,
    pub selection_bg: Color,
    pub hover_bg: Color,
    pub code: Color,
    pub heading: Color,
    pub bg: Color,
}

/// The names of the built-in themes, in order.
pub open spec fn theme_names() -> Seq<Seq<char>> {
    seq!["default"@, "nord"@, "dracula"@]
}

pub open spec fn default_theme_spec() -> Theme {
    Theme {
        name: "default",
        text: Color::White,
        dim: Color::DarkGray,
        accent: Color::Cyan,
        success: Color::Green,
        error: Color::Red,
        running: Color::Yellow,
        reasoning: Color::Magenta,
        border: Color::DarkGray,
        selection_fg: Color::Black,
        selection_bg: Color::White,
        hover_bg: Color::Indexed(236),
        code: Color::Yellow,
        heading: Color::White,
        bg: Color::Rgb(30, 41, 59),
    }
}

pub open spec fn nord_spec() -> Theme {
    Theme {
        name: "nord",
        text: Color::Rgb(216, 222, 233),
        dim: Color::Rgb(76, 86, 106),
        accent: Color::Rgb(136, 192, 208),
        success: Color::Rgb(163, 190, 140),
        error: Color::Rgb(191, 97, 106),
        running: Color::Rgb(235, 203, 139),
        reasoning: Color::Rgb(180, 142, 173),
        border: Color::Rgb(59, 66, 82),
        selection_fg: Color::Rgb(46, 52, 64),
        selection_bg: Color::Rgb(129, 161, 193),
        hover_bg: Color::Rgb(59, 66, 82),
        code: Color::Rgb(143, 188, 187),
        heading: Color::Rgb(216, 222, 233),
        bg: Color::Rgb(46, 52, 64),
    }
}

pub open spec fn dracula_spec() -> Theme {
    Theme {
        name: "dracula",
        text: Color::Rgb(248, 248, 242),
        dim: Color::Rgb(98, 114, 164),
        accent: Color::Rgb(139, 233, 253),
        success: Color::Rgb(80, 250, 123),
        error: Color::Rgb(255, 85, 85),
        running: Color::Rgb(241, 250, 140),
        reasoning: Color::Rgb(189, 147, 249),
        border: Color::Rgb(68, 71, 90),
        selection_fg: Color::Rgb(40, 42, 54),
        selection_bg: Color::Rgb(68, 71, 90),
        hover_bg: Color::Rgb(68, 71, 90),
        code: Color::Rgb(139, 233, 253),
        heading: Color::Rgb(248, 248, 242),
        bg: Color::Rgb(40, 42, 54),
    }
}

impl Theme {
    /// The built-in LightCode look.
    pub fn default_theme() -> (r: Theme)
        ensures
            r == default_theme_spec(),
    {
        Theme {
            name: "default",
            text: Color::White,
            dim: Color::DarkGray,
            accent: Color::Cyan,
            success: Color::Green,
            error: Color::Red,
            running: Color::Yellow,
            reasoning: Color::Magenta,
            border: Color::DarkGray,
            selection_fg: Color::Black,
            selection_bg: Color::White,
            hover_bg: Color::Indexed(236),
            code: Color::Yellow,
            heading: Color::White,
            bg: Color::Rgb(30, 41, 59),
        }
    }

    /// Nord: cool blue-gray palette.
    pub fn nord() -> (r: Theme)
        ensures
            r == nord_spec(),
    {
        Theme {
            name: "nord",
            text: Color::Rgb(216, 222, 233),
            dim: Color::Rgb(76, 86, 106),
            accent: Color::Rgb(136, 192, 208),
            success: Color::Rgb(163, 190, 140),
            error: Color::Rgb(191, 97, 106),
            running: Color::Rgb(235, 203, 139),
            reasoning: Color::Rgb(180, 142, 173),
            border: Color::Rgb(59, 66, 82),
            selection_fg: Color::Rgb(46, 52, 64),
            selection_bg: Color::Rgb(129, 161, 193),
            hover_bg: Color::Rgb(59, 66, 82),
            code: Color::Rgb(143, 188, 187),
            heading: Color::Rgb(216, 222, 233),
            bg: Color::Rgb(46, 52, 64),
        }
    }

    /// Dracula: high-contrast dark palette.
    pub fn dracula() -> (r: Theme)
        ensures
            r == dracula_spec(),
    {
        Theme {
            name: "dracula",
            text: Color::Rgb(248, 248, 242),
            dim: Color::Rgb(98, 114, 164),
            accent: Color::Rgb(139, 233, 253),
            success: Color::Rgb(80, 250, 123),
            error: Color::Rgb(255, 85, 85),
            running: Color::Rgb(241, 250, 140),
            reasoning: Color::Rgb(189, 147, 249),
            border: Color::Rgb(68, 71, 90),
            selection_fg: Color::Rgb(40, 42, 54),
            selection_bg: Color::Rgb(68, 71, 90),
            hover_bg: Color::Rgb(68, 71, 90),
            code: Color::Rgb(139, 233, 253),
            heading: Color::Rgb(248, 248, 242),
            bg: Color::Rgb(40, 42, 54),
        }
    }

    /// The built-in themes: default, nord and dracula.
    pub fn all() -> (r: Vec<Theme>)
        ensures
            r@ == seq![default_theme_spec(), nord_spec(), dracula_spec()],
            forall|i: int| 0 <= i < 3 ==> (#[trigger] r@[i]).name@ == theme_names()[i],
    {
        let mut v: Vec<Theme> = Vec::new();
        v.push(Theme::default_theme());
        v.push(Theme::nord());
        v.push(Theme::dracula());
        v
    }

    /// The built-in theme of that name.
    pub fn by_name(name: &str) -> (r: Option<Theme>)
        ensures
            match r {
                Some(t) => t.name@ == name@ && theme_names().contains(name@) && seq![
                    default_theme_spec(),
                    nord_spec(),
                    dracula_spec(),
                ].contains(t),
                None => !theme_names().contains(name@),
            },
    {
        let all = Theme::all();
        let n = chars_of(name);
        let mut i: usize = 0;
        while i < all.len()
            invariant
                all@ == seq![default_theme_spec(), nord_spec(), dracula_spec()],
                all@.len() == 3,
                forall|k: int| 0 <= k < 3 ==> (#[trigger] all@[k]).name@ == theme_names()[k],
                n@ == name@,
                i <= 3,
                forall|k: int| 0 <= k < i ==> theme_names()[k] != name@,
            decreases all.len() - i,
        {
            if eq_str(&n, all[i].name) {
                assert(theme_names()[i as int] == name@);
                assert(all@.contains(all@[i as int]));
                return Some(all[i]);
            }
            i += 1;
        }
        proof {
            if theme_names().contains(name@) {
                let k = choose|k: int| 0 <= k < 3 && theme_names()[k] == name@;
                assert(false);
            }
        }
        None
    }
}

/// Whether a colour is a dark one (used to pick readable text on it).
pub open spec fn is_dark_spec(c: Color) -> bool {
    match c {
        Color::DarkGray | Color::Black => true,
        Color::Rgb(r, g, b) => (r as int + g as int + b as int) < 300,
        _ => false,
    }
}

pub fn is_dark(c: &Color) -> (r: bool)
    ensures
        r == is_dark_spec(*c),
{
    match c {
        Color::DarkGray | Color::Black => true,
        Color::Rgb(r, g, b) => (*r as u32) + (*g as u32) + (*b as u32) < 300,
        _ => false,
    }
}

} // verus!
