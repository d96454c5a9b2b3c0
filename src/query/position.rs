//! Positions in source text: 0-based inside the library, 1-based when
//! reported.
use vstd::prelude::*;

verus! {

/// A (row, column) pair, both 0-based: the row is the line index and the
/// column the byte offset within that line.
#[derive(Clone, Copy, Debug, PartialEq, Eq, Structural, PartialOrd, Ord, Hash)]
pub struct Position {
    pub row: usize,
    pub column: usize,
}

/// A (row, column) pair as reported to users: both 1-based. Wide enough that
/// every `Position` has one.
#[derive(Clone, Copy, Debug, PartialEq, Eq, Structural, PartialOrd, Ord, Hash)]
pub struct ReportedPosition {
    pub row: u128,
    pub column: u128,
}

impl Position {
    pub fn new(row: usize, column: usize) -> (r: Position)
        ensures
            r.row == row,
            r.column == column,
    {
        Position { row, column }
    }

    /// The 1-based coordinates of this position.
    pub fn to_reported(&self) -> (r: ReportedPosition)
        ensures
            r.row == self.row + 1,
            r.column == self.column + 1,
    {
        ReportedPosition { row: self.row as u128 + 1, column: self.column as u128 + 1 }
    }
}

} // verus!
