//! Colors and text styles.

use vstd::prelude::*;
use crate::rows::AgentState;

verus! {

/// A terminal color.
#[derive(Debug, Clone, Copy, PartialEq, Eq, Structural)]
pub enum Color {
    Reset,
    Black,
    Red,
    Green,
    Yellow,
    Blue,
    Magenta,
    Cyan,
    Gray,
    DarkGray,
    LightRed,
    LightGreen,
    LightYellow,
    LightBlue,
    LightMagenta,
    LightCyan,
    White,
    Rgb(u8, u8, u8),
    Indexed(u8),
}

/// Kinds of emphasis.
#[derive(Debug, Clone, Copy, PartialEq, Eq, Structural)]
pub struct Emphasis {
    pub bold: bool,
    pub dim: bool,
    pub italic: bool,
    pub underlined: bool,
    pub reversed: bool,
    pub crossed_out: bool,
}

/// No emphasis.
pub open spec fn no_emphasis() -> Emphasis {
    Emphasis {
        bold: false,
        dim: false,
        italic: false,
        underlined: false,
        reversed: false,
        crossed_out: false,
    }
}

/// The emphasis of `a`, of `b` and of both.
pub open spec fn emphasis_union(a: Emphasis, b: Emphasis) -> Emphasis {
    Emphasis {
        bold: a.bold || b.bold,
        dim: a.dim || b.dim,
        italic: a.italic || b.italic,
        underlined: a.underlined || b.underlined,
        reversed: a.reversed || b.reversed,
        crossed_out: a.crossed_out || b.crossed_out,
    }
}

/// The emphasis of `a` that is not one of `b`.
pub open spec fn emphasis_difference(a: Emphasis, b: Emphasis) -> Emphasis {
    Emphasis {
        bold: a.bold && !b.bold,
        dim: a.dim && !b.dim,
        italic: a.italic && !b.italic,
        underlined: a.underlined && !b.underlined,
        reversed: a.reversed && !b.reversed,
        crossed_out: a.crossed_out && !b.crossed_out,
    }
}

impl Emphasis {
    /// No emphasis.
    pub fn none() -> (r: Emphasis)
        ensures
            r == no_emphasis(),
    {
        Emphasis {
            bold: false,
            dim: false,
            italic: false,
            underlined: false,
            reversed: false,
            crossed_out: false,
        }
    }

    /// The emphasis of either.
    pub fn union(self, other: Emphasis) -> (r: Emphasis)
        ensures
            r == emphasis_union(self, other),
    {
        Emphasis {
            bold: self.bold || other.bold,
            dim: self.dim || other.dim,
            italic: self.italic || other.italic,
            underlined: self.underlined || other.underlined,
            reversed: self.reversed || other.reversed,
            crossed_out: self.crossed_out || other.crossed_out,
        }
    }

    /// The emphasis of this that is not one of `other`.
    pub fn difference(self, other: Emphasis) -> (r: Emphasis)
        ensures
            r == emphasis_difference(self, other),
    {
        Emphasis {
            bold: self.bold && !other.bold,
            dim: self.dim && !other.dim,
            italic: self.italic && !other.italic,
            underlined: self.underlined && !other.underlined,
            reversed: self.reversed && !other.reversed,
            crossed_out: self.crossed_out && !other.crossed_out,
        }
    }
}

/// How a text is to be shown. What a style leaves open is taken from below it.
#[derive(Debug, Clone, Copy, PartialEq, Eq, Structural)]
pub struct Style {
    pub fg: Option<Color>,
    pub bg: Option<Color>,
    /// The emphasis that the style turns on.
    pub add: Emphasis,
    /// The emphasis that the style turns off.
    pub sub: Emphasis,
}

/// The style that leaves everything open.
pub open spec fn plain_style() -> Style {
    Style { fg: None, bg: None, add: no_emphasis(), sub: no_emphasis() }
}

/// `style` with the emphasis `e` turned on.
pub open spec fn emphasized(style: Style, e: Emphasis) -> Style {
    Style {
        add: emphasis_union(style.add, e),
        sub: emphasis_difference(style.sub, e),
        ..style
    }
}

/// `style` with the emphasis `e` turned off.
pub open spec fn deemphasized(style: Style, e: Emphasis) -> Style {
    Style {
        add: emphasis_difference(style.add, e),
        sub: emphasis_union(style.sub, e),
        ..style
    }
}

/// Bold alone.
pub open spec fn only_bold() -> Emphasis {
    Emphasis { bold: true, ..no_emphasis() }
}

/// A style with a foreground color.
pub open spec fn fg_style(color: Color) -> Style {
    Style { fg: Some(color), ..plain_style() }
}

/// A style with a foreground and a background color.
pub open spec fn colors(fg: Color, bg: Color) -> Style {
    Style { fg: Some(fg), bg: Some(bg), ..plain_style() }
}

impl Style {
    /// The style that leaves everything open.
    pub fn plain() -> (r: Style)
        ensures
            r == plain_style(),
    {
        Style { fg: None, bg: None, add: Emphasis::none(), sub: Emphasis::none() }
    }

    /// The style with a foreground color.
    pub fn with_fg(self, color: Color) -> (r: Style)
        ensures
            r == (Style { fg: Some(color), ..self }),
    {
        Style { fg: Some(color), ..self }
    }

    /// The style with a background color.
    pub fn with_bg(self, color: Color) -> (r: Style)
        ensures
            r == (Style { bg: Some(color), ..self }),
    {
        Style { bg: Some(color), ..self }
    }

    /// The style with `e` turned on.
    pub fn add_modifier(self, e: Emphasis) -> (r: Style)
        ensures
            r == emphasized(self, e),
    {
        Style { add: self.add.union(e), sub: self.sub.difference(e), ..self }
    }

    /// The style with `e` turned off.
    pub fn remove_modifier(self, e: Emphasis) -> (r: Style)
        ensures
            r == deemphasized(self, e),
    {
        Style { add: self.add.difference(e), sub: self.sub.union(e), ..self }
    }

    /// The style in bold.
    pub fn bold(self) -> (r: Style)
        ensures
            r == emphasized(self, only_bold()),
    {
        self.add_modifier(Emphasis { bold: true, ..Emphasis::none() })
    }
}

/// The mark that shows the state of an agent.
#[derive(Debug, Clone, Copy, PartialEq, Eq, Structural)]
pub struct Dot {
    pub symbol: char,
    pub style: Style,
}

/// The marks of one agent state, by whether it was seen.
#[derive(Debug, Clone, Copy, PartialEq, Eq, Structural)]
pub struct DotPair {
    pub seen: Dot,
    pub unseen: Dot,
}

/// The colors and marks of the user interface.
#[derive(Debug, Clone, Copy, PartialEq, Eq, Structural)]
pub struct Palette {
    pub accent: Color,
    pub panel_bg: Color,
    pub text: Color,
    pub subtext0: Color,
    pub overlay0: Color,
    pub overlay1: Color,
    pub surface0: Color,
    pub surface1: Color,
    pub surface_dim: Color,
    /// The text color on the accent color.
    pub contrast_fg: Color,
    pub idle: DotPair,
    pub working: DotPair,
    pub blocked: DotPair,
    pub unknown: DotPair,
}

impl Palette {
    /// The mark for an agent state.
    pub open spec fn dot(self, state: AgentState, seen: bool) -> Dot {
        let pair = match state {
            AgentState::Idle => self.idle,
            AgentState::Working => self.working,
            AgentState::Blocked => self.blocked,
            AgentState::Unknown => self.unknown,
        };
        if seen {
            pair.seen
        } else {
            pair.unseen
        }
    }

    /// The mark for an agent state.
    pub fn state_dot(&self, state: AgentState, seen: bool) -> (r: Dot)
        ensures
            r == self.dot(state, seen),
    {
        let pair = match state {
            AgentState::Idle => self.idle,
            AgentState::Working => self.working,
            AgentState::Blocked => self.blocked,
            AgentState::Unknown => self.unknown,
        };
        if seen {
            pair.seen
        } else {
            pair.unseen
        }
    }
}

} // verus!
