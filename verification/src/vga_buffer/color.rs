//! Text-mode colors.

use vstd::prelude::*;

verus! {

/// The sixteen text-mode colors.
#[derive(Debug, Clone, Copy, PartialEq, Eq, Structural)]
pub enum Color {
    Black,
    Blue,
    Green,
    Cyan,
    Red,
    Magenta,
    Brown,
    LightGray,
    DarkGray,
    LightBlue,
    LightGreen,
    LightCyan,
    LightRed,
    Pink,
    Yellow,
    White,
}

/// The number of a color.
pub open spec fn color_number(c: Color) -> u8 {
    match c {
        Color::Black => 0,
        Color::Blue => 1,
        Color::Green => 2,
        Color::Cyan => 3,
        Color::Red => 4,
        Color::Magenta => 5,
        Color::Brown => 6,
        Color::LightGray => 7,
        Color::DarkGray => 8,
        Color::LightBlue => 9,
        Color::LightGreen => 10,
        Color::LightCyan => 11,
        Color::LightRed => 12,
        Color::Pink => 13,
        Color::Yellow => 14,
        Color::White => 15,
    }
}

impl Color {
    /// The number of the color.
    pub fn number(self) -> (res: u8)
        ensures
            res == color_number(self),
    {
        match self {
            Color::Black => 0,
            Color::Blue => 1,
            Color::Green => 2,
            Color::Cyan => 3,
            Color::Red => 4,
            Color::Magenta => 5,
            Color::Brown => 6,
            Color::LightGray => 7,
            Color::DarkGray => 8,
            Color::LightBlue => 9,
            Color::LightGreen => 10,
            Color::LightCyan => 11,
            Color::LightRed => 12,
            Color::Pink => 13,
            Color::Yellow => 14,
            Color::White => 15,
        }
    }
}

/// A foreground and a background color: the background's number in the
/// high four bits, the foreground's in the low four.
#[derive(Debug, Clone, Copy, PartialEq, Eq, Structural)]
pub struct ColorCode(pub u8);

/// The code of `foreground` on `background`.
pub open spec fn color_code(foreground: Color, background: Color) -> ColorCode {
    ColorCode((color_number(background) * 16 + color_number(foreground)) as u8)
}

impl ColorCode {
    pub fn new(foreground: Color, background: Color) -> (res: ColorCode)
        ensures
            res == color_code(foreground, background),
    {
        let f = foreground.number();
        let b = background.number();
        proof {
            assert(b < 16 && f < 16 ==> (b << 4u8) | f == b * 16 + f) by (bit_vector);
        }
        ColorCode((b << 4) | f)
    }
}

/// White on black, the default.
pub open spec fn default_color() -> ColorCode {
    color_code(Color::White, Color::Black)
}

} // verus!
