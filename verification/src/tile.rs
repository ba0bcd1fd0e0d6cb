//! One cell of the text terminal: a glyph with foreground and background.

use vstd::prelude::*;

use crate::colour::Colour;

verus! {

#[derive(Debug, Copy, Clone, PartialEq, Eq, Structural)]
pub struct Tile {
    pub glyph: char,
    pub fg: Colour,
    pub bg: Colour,
}

impl Tile {
    /// The blank tile: a space drawn white on black.
    pub open spec fn spec_blank() -> Tile {
        Tile {
            glyph: ' ',
            fg: Colour { r: 255, g: 255, b: 255 },
            bg: Colour { r: 0, g: 0, b: 0 },
        }
    }

    pub fn new() -> (t: Tile)
        ensures
            t == Tile::spec_blank(),
    {
        Tile { glyph: ' ', fg: Colour::white(), bg: Colour::black() }
    }
}

impl Default for Tile {
    fn default() -> (t: Tile)
        ensures
            t == Tile::spec_blank(),
    {
        Tile::new()
    }
}

} // verus!
