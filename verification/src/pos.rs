use vstd::prelude::*;

verus! {

/// A position in *buffer* coordinates, in char units (never screen coordinates).
#[derive(Debug, Clone, Copy, PartialEq, Eq, Structural)]
pub struct Pos {
    /// Vertical: index into the buffer's lines.
    pub row: usize,
    /// Horizontal: char index within that line.
    pub col: usize,
}

impl Pos {
    pub fn new(row: usize, col: usize) -> (p: Pos)
        ensures
            p.row == row,
            p.col == col,
    {
        Pos { row, col }
    }
}

impl Default for Pos {
    fn default() -> (p: Pos)
        ensures
            p.row == 0,
            p.col == 0,
    {
        Pos { row: 0, col: 0 }
    }
}

} // verus!
