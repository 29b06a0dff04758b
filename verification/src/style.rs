use vstd::prelude::*;

verus! {

/// A color of the terminal palette.
#[derive(Clone, Copy, PartialEq, Eq, Structural, Debug)]
pub enum Color {
    Reset,
    Black,
    Red,
    Green,
    Yellow,
    Blue,
    Magenta,
    Cyan,
    White,
    LightBlack,
    LightRed,
    LightGreen,
    LightYellow,
    LightBlue,
    LightMagenta,
    LightCyan,
    LightWhite,
}

/// A text decoration applied to a cell.
#[derive(Clone, Copy, PartialEq, Eq, Structural, Debug)]
pub enum Modifier {
    Reset,
    Bold,
    Underline,
    Invert,
}

/// Visual attributes of one cell: foreground and background color plus a
/// text decoration.
#[derive(Clone, Copy, PartialEq, Eq, Structural, Debug)]
pub struct Style {
    pub fg: Color,
    pub bg: Color,
    pub modifier: Modifier,
}

impl Style {
    /// The default style: reset colors, no decoration.
    pub open spec fn plain() -> Style {
        Style { fg: Color::Reset, bg: Color::Reset, modifier: Modifier::Reset }
    }

    /// Restores the default style in place.
    pub fn reset(&mut self)
        ensures
            *final(self) == Style::plain(),
    {
        self.fg = Color::Reset;
        self.bg = Color::Reset;
        self.modifier = Modifier::Reset;
    }
}

impl Default for Style {
    fn default() -> (s: Style)
        ensures
            s == Style::plain(),
    {
        Style { fg: Color::Reset, bg: Color::Reset, modifier: Modifier::Reset }
    }
}

} // verus!
