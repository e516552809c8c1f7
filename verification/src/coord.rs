//! Grid positions: a two-dimensional integer coordinate, the key type used
//! throughout the arena.

use vstd::prelude::*;

verus! {

/// A position on the grid, by row and column. A value type: two coordinates
/// are the same position exactly when both fields agree.
#[derive(Debug, Clone, Copy, PartialEq, Eq, Hash, Structural)]
pub struct Coord {
    pub row: i32,
    pub col: i32,
}

impl Coord {
    pub fn new(row: i32, col: i32) -> (r: Coord)
        ensures
            r == (Coord { row, col }),
    {
        Coord { row, col }
    }
}

} // verus!
