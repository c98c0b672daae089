//! What a frame is made of: cells of the grid, each with the thing to show on
//! it. How a thing looks is up to whoever paints the frame.

use vstd::prelude::*;
use crate::game::Vec2;

verus! {

/// What is shown on a cell.
#[derive(Clone, Copy, Debug, PartialEq, Eq, Structural)]
pub enum Glyph {
    /// An empty cell of the board.
    Floor,
    Fruit,
    /// The score line, with the number of fruits eaten.
    Score(u16),
    Head,
    Body,
}

/// One thing to paint: a glyph and the grid cell it goes on.
#[derive(Clone, Copy, Debug, PartialEq, Eq, Structural)]
pub struct Sprite {
    pub position: Vec2,
    pub glyph: Glyph,
}

/// The terminal column that grid column `x` starts at: every cell is two
/// columns wide, behind a margin of one column.
pub open spec fn screen_column(x: u16) -> int {
    2 * x + 1
}

impl Sprite {
    pub fn new(position: Vec2, glyph: Glyph) -> (r: Self)
        ensures
            r == (Sprite { position, glyph }),
    {
        Self { position, glyph }
    }

    /// The terminal column to paint this sprite at, if the terminal's
    /// coordinates can express it.
    pub fn column(&self) -> (r: Option<u16>)
        ensures
            r == if screen_column(self.position.x) <= u16::MAX {
                Some(screen_column(self.position.x) as u16)
            } else {
                None
            },
    {
        if self.position.x <= (u16::MAX - 1) / 2 {
            Some(self.position.x * 2 + 1)
        } else {
            None
        }
    }

    /// The terminal row to paint this sprite at.
    pub fn row(&self) -> (r: u16)
        ensures
            r == self.position.y,
    {
        self.position.y
    }
}

} // verus!
