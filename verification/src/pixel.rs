//! Colours and coloured cells.

use vstd::prelude::*;

verus! {

/// The palette. `Clear` is the sentinel that erases a cell.
#[derive(Debug, Clone, Copy, PartialEq, Eq, Structural)]
pub enum PixelColour {
    Clear,
    White,
    DarkRed,
    Red,
    DarkBlue,
    Blue,
    DarkGreen,
    Green,
    DarkYellow,
    Yellow,
    DarkMagenta,
    Magenta,
    DarkGrey,
    Grey,
    Black,
}

/// One cell of a canvas together with its colour.
#[derive(Debug, Clone, Copy, PartialEq, Eq, Structural)]
pub struct Pixel {
    pub x: u32,
    pub y: u32,
    pub colour: PixelColour,
}

impl Pixel {
    /// The coordinate pair of the cell.
    pub open spec fn position(self) -> (u32, u32) {
        (self.x, self.y)
    }

    /// Whether drawing this pixel erases its cell.
    pub fn is_clear(&self) -> (b: bool)
        ensures
            b == (self.colour == PixelColour::Clear),
    {
        match self.colour {
            PixelColour::Clear => true,
            _ => false,
        }
    }
}

} // verus!
