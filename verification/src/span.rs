//! Positions and areas inside a source file.

use vstd::prelude::*;

verus! {

/// Position of an object inside a file.
#[derive(Copy, Clone, Debug, PartialEq, Eq, Structural, Hash)]
pub struct Position {
    /// Line where the object is located.
    ///
    /// Starts at 1.
    pub line: usize,
    /// Column where the object is located.
    ///
    /// Starts at 1.
    pub col: usize,
}

impl Position {
    /// A position is valid when both its line and its column are at least 1.
    pub open spec fn is_valid(self) -> bool {
        self.line >= 1 && self.col >= 1
    }

    /// `self` comes at or before `other` in the file.
    pub open spec fn le(self, other: Position) -> bool {
        self.line < other.line || (self.line == other.line && self.col <= other.col)
    }

    /// Create a new position.
    ///
    /// Lines and columns start at 1; a zero line or column is not a position.
    pub fn new(line: usize, col: usize) -> (res: Self)
        requires
            line >= 1,
            col >= 1,
        ensures
            res.line == line,
            res.col == col,
            res.is_valid(),
    {
        Position { line, col }
    }
}

/// Area that an object spans inside a file.
#[derive(Copy, Clone, Debug, PartialEq, Eq, Structural, Hash)]
pub struct Span {
    /// Position where the object starts.
    pub start: Position,
    /// Position where the object ends.
    pub end: Position,
}

impl Span {
    /// A span is valid when it starts at or before its end.
    pub open spec fn is_valid(self) -> bool {
        self.start.le(self.end)
    }

    /// Create a new span.
    ///
    /// The start must not come after the end.
    pub fn new(start: Position, end: Position) -> (res: Self)
        requires
            start.le(end),
        ensures
            res.start == start,
            res.end == end,
            res.is_valid(),
    {
        Span { start, end }
    }

    /// Check if the span covers more than one line.
    pub fn is_multiline(&self) -> (res: bool)
        ensures
            res == (self.start.line < self.end.line),
    {
        self.start.line < self.end.line
    }
}

} // verus!
