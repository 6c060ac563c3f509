use vstd::prelude::*;

verus! {

/// The sixteen colors of the classic text-mode palette.
#[derive(Clone, Copy, Debug, PartialEq, Eq, Structural)]
pub enum Palette {
    Black,
    Red,
    Green,
    Brown,
    Blue,
    Magenta,
    Cyan,
    LightGray,
    DarkGray,
    LightRed,
    LightGreen,
    Yellow,
    LightBlue,
    LightMagenta,
    LightCyan,
    White,
}

/// A color: either a direct 8-bit-per-channel RGB value or a palette entry.
#[derive(Clone, Copy, Debug, PartialEq, Eq, Structural)]
pub enum Color {
    Rgb(u8, u8, u8),
    Palette(Palette),
}

/// The position of a palette entry, in declaration order.
pub open spec fn palette_position(p: Palette) -> nat {
    match p {
        Palette::Black => 0,
        Palette::Red => 1,
        Palette::Green => 2,
        Palette::Brown => 3,
        Palette::Blue => 4,
        Palette::Magenta => 5,
        Palette::Cyan => 6,
        Palette::LightGray => 7,
        Palette::DarkGray => 8,
        Palette::LightRed => 9,
        Palette::LightGreen => 10,
        Palette::Yellow => 11,
        Palette::LightBlue => 12,
        Palette::LightMagenta => 13,
        Palette::LightCyan => 14,
        Palette::White => 15,
    }
}

/// Palette entries are numbered in declaration order.
pub proof fn lemma_palette_positions()
    ensures
        palette_position(Palette::Black) == 0,
        palette_position(Palette::Red) == 1,
        palette_position(Palette::Green) == 2,
        palette_position(Palette::Brown) == 3,
        palette_position(Palette::Blue) == 4,
        palette_position(Palette::Magenta) == 5,
        palette_position(Palette::Cyan) == 6,
        palette_position(Palette::LightGray) == 7,
        palette_position(Palette::DarkGray) == 8,
        palette_position(Palette::LightRed) == 9,
        palette_position(Palette::LightGreen) == 10,
        palette_position(Palette::Yellow) == 11,
        palette_position(Palette::LightBlue) == 12,
        palette_position(Palette::LightMagenta) == 13,
        palette_position(Palette::LightCyan) == 14,
        palette_position(Palette::White) == 15,
{
}

impl Palette {
    /// The position of this entry in declaration order (`0` for `Black` up
    /// to `15` for `White`).
    pub fn position(self) -> (r: usize)
        ensures
            r == palette_position(self),
            r < 16,
    {
        match self {
            Palette::Black => 0,
            Palette::Red => 1,
            Palette::Green => 2,
            Palette::Brown => 3,
            Palette::Blue => 4,
            Palette::Magenta => 5,
            Palette::Cyan => 6,
            Palette::LightGray => 7,
            Palette::DarkGray => 8,
            Palette::LightRed => 9,
            Palette::LightGreen => 10,
            Palette::Yellow => 11,
            Palette::LightBlue => 12,
            Palette::LightMagenta => 13,
            Palette::LightCyan => 14,
            Palette::White => 15,
        }
    }
}

} // verus!
