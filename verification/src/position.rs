//! Source locations.

use vstd::prelude::*;

verus! {

/// A location in the source text: a line and a column, both counted from 1.
/// Line 0 is the sentinel for "no position".
#[derive(Clone, Copy, Debug, PartialEq, Eq, Hash, Structural)]
pub struct Position {
    /// Line number, 0 when there is no position.
    pub line: u16,
    /// Column, 0 at the beginning of a line.
    pub pos: u16,
}

impl Position {
    /// The sentinel that stands for "no position".
    pub open spec fn none() -> Position {
        Position { line: 0, pos: 0 }
    }

    /// A position at the given line and column.
    pub fn new(line: u16, pos: u16) -> (r: Position)
        ensures
            r == (Position { line, pos }),
    {
        Position { line, pos }
    }

    /// The position that stands for "no position".
    pub fn no_position() -> (r: Position)
        ensures
            r == Position::none(),
    {
        Position { line: 0, pos: 0 }
    }

    /// Is this the sentinel?
    pub fn is_none(&self) -> (r: bool)
        ensures
            r == (*self == Position::none()),
    {
        self.line == 0 && self.pos == 0
    }
}

} // verus!
