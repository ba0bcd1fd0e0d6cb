//! An RGB colour, as used by the message log and the text terminal.

use vstd::prelude::*;

verus! {

#[derive(Debug, Copy, Clone, PartialEq, Eq, Structural)]
pub struct Colour {
    pub r: u8,
    pub g: u8,
    pub b: u8,
}

impl Colour {
    pub fn new(r: u8, g: u8, b: u8) -> (c: Colour)
        ensures
            c == (Colour { r, g, b }),
    {
        Colour { r, g, b }
    }

    pub fn gray() -> (c: Colour)
        ensures
            c == (Colour { r: 192, g: 192, b: 192 }),
    {
        Colour { r: 192, g: 192, b: 192 }
    }

    pub fn dark_gray() -> (c: Colour)
        ensures
            c == (Colour { r: 128, g: 128, b: 128 }),
    {
        Colour { r: 128, g: 128, b: 128 }
    }

    pub fn very_dark_gray() -> (c: Colour)
        ensures
            c == (Colour { r: 64, g: 64, b: 64 }),
    {
        Colour { r: 64, g: 64, b: 64 }
    }

    pub fn red() -> (c: Colour)
        ensures
            c == (Colour { r: 255, g: 0, b: 0 }),
    {
        Colour { r: 255, g: 0, b: 0 }
    }

    pub fn dark_red() -> (c: Colour)
        ensures
            c == (Colour { r: 128, g: 0, b: 0 }),
    {
        Colour { r: 128, g: 0, b: 0 }
    }

    pub fn yellow() -> (c: Colour)
        ensures
            c == (Colour { r: 255, g: 255, b: 0 }),
    {
        Colour { r: 255, g: 255, b: 0 }
    }

    pub fn green() -> (c: Colour)
        ensures
            c == (Colour { r: 0, g: 255, b: 0 }),
    {
        Colour { r: 0, g: 255, b: 0 }
    }

    pub fn dark_green() -> (c: Colour)
        ensures
            c == (Colour { r: 0, g: 128, b: 0 }),
    {
        Colour { r: 0, g: 128, b: 0 }
    }

    pub fn cyan() -> (c: Colour)
        ensures
            c == (Colour { r: 0, g: 255, b: 255 }),
    {
        Colour { r: 0, g: 255, b: 255 }
    }

    pub fn dark_cyan() -> (c: Colour)
        ensures
            c == (Colour { r: 0, g: 128, b: 128 }),
    {
        Colour { r: 0, g: 128, b: 128 }
    }

    pub fn blue() -> (c: Colour)
        ensures
            c == (Colour { r: 0, g: 0, b: 255 }),
    {
        Colour { r: 0, g: 0, b: 255 }
    }

    pub fn dark_blue() -> (c: Colour)
        ensures
            c == (Colour { r: 0, g: 0, b: 128 }),
    {
        Colour { r: 0, g: 0, b: 128 }
    }

    pub fn magenta() -> (c: Colour)
        ensures
            c == (Colour { r: 255, g: 0, b: 255 }),
    {
        Colour { r: 255, g: 0, b: 255 }
    }

    pub fn dark_magenta() -> (c: Colour)
        ensures
            c == (Colour { r: 128, g: 0, b: 128 }),
    {
        Colour { r: 128, g: 0, b: 128 }
    }

    pub fn black() -> (c: Colour)
        ensures
            c == (Colour { r: 0, g: 0, b: 0 }),
    {
        Colour { r: 0, g: 0, b: 0 }
    }

    pub fn white() -> (c: Colour)
        ensures
            c == (Colour { r: 255, g: 255, b: 255 }),
    {
        Colour { r: 255, g: 255, b: 255 }
    }
}

} // verus!
