use vstd::prelude::*;

verus! {

/// Source location attached to every token and diagnostic: a 1-based line
/// number and an approximate column, accumulated from the lengths of the
/// words that precede it on its line rather than from byte offsets.
#[derive(Debug, Clone, Copy, PartialEq, Eq, Structural)]
pub struct Position {
    pub line: usize,
    pub index: usize,
}

impl Position {
    pub fn new(line: usize, index: usize) -> (p: Position)
        ensures
            p == (Position { line, index }),
    {
        Position { line, index }
    }
}

impl View for Position {
    type V = Position;

    open spec fn view(&self) -> Position {
        *self
    }
}

impl DeepView for Position {
    type V = Position;

    open spec fn deep_view(&self) -> Position {
        *self
    }
}

} // verus!
