//! One cell of the board.

use crate::grid::grid::Depict;
use crate::grid::rgb::RGB;
use vstd::prelude::*;

verus! {

/// UTF-8 bytes of a filled square followed by a space.
pub const SQUARE: [u8; 4] = [0xE2, 0x96, 0xA0, 0x20];

/// UTF-8 bytes of a hollow square followed by a space.
pub const SQUARE_OUTLINE: [u8; 4] = [0xE2, 0x96, 0xA1, 0x20];

/// UTF-8 bytes of a square inside a square followed by a space.
pub const OUTLINED_SQUARE: [u8; 4] = [0xE2, 0x96, 0xA3, 0x20];

/// A cell: whether it is free, how it is drawn, and where it sits.
#[derive(Copy, Clone, Debug, PartialEq, Eq)]
pub struct Tile {
    pub empty: bool,
    pub color: RGB,
    pub utf8: [u8; 4],
    pub row: usize,
    pub column: usize,
}

impl Tile {
    /// The free cell at `(row, column)`: slate colored, drawn as a filled square.
    pub open spec fn blank(row: usize, column: usize) -> Tile {
        Tile { empty: true, color: RGB { r: 47, g: 79, b: 79 }, utf8: SQUARE, row, column }
    }

    /// A free cell at the given position.
    pub fn new(row: usize, column: usize) -> (t: Tile)
        ensures
            t == Tile::blank(row, column),
    {
        Tile { empty: true, color: RGB { r: 47, g: 79, b: 79 }, utf8: SQUARE, row, column }
    }

    /// Moves the cell one row down.
    pub fn advance(&mut self)
        requires
            old(self).row < usize::MAX,
        ensures
            *final(self) == (Tile { row: (old(self).row + 1) as usize, ..*old(self) }),
    {
        self.row = self.row + 1;
    }
}

impl Depict for Tile {
    fn color(&self) -> (c: RGB)
        ensures
            c == self.color,
    {
        self.color
    }

    fn utf8(&self) -> (glyph: [u8; 4])
        ensures
            glyph == self.utf8,
    {
        self.utf8
    }
}

impl Default for Tile {
    /// The free cell at the origin.
    fn default() -> (t: Tile)
        ensures
            t == Tile::blank(0, 0),
    {
        Tile::new(0, 0)
    }
}

} // verus!
