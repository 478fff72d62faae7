use vstd::prelude::*;

verus! {

/// A location (line number + character position) in the input script.
///
/// A line number of zero means "no position".
#[derive(PartialEq, Eq, Structural, Clone, Copy, Debug)]
pub struct Position {
    /// Line number: 0 = none
    pub line: u16,
    /// Character position: 0 = beginning of the line
    pub pos: u16,
}

impl Position {
    /// A [`Position`] representing no position.
    pub fn none() -> (r: Position)
        ensures
            r.line == 0,
            r.pos == 0,
    {
        Position { line: 0, pos: 0 }
    }

    /// Create a new [`Position`].
    ///
    /// `line` must not be zero; a position of zero means the beginning of the line.
    pub fn new(line: u16, position: u16) -> (r: Position)
        requires
            line != 0,
        ensures
            r.line == line,
            r.pos == position,
    {
        Position { line, pos: position }
    }

    /// Create a new [`Position`], or [`None`] if `line` is zero.
    pub fn new_const(line: u16, position: u16) -> (r: Option<Position>)
        ensures
            line == 0 ==> r is None,
            line != 0 ==> r == Some(Position { line, pos: position }),
    {
        if line == 0 {
            None
        } else {
            Some(Self::new(line, position))
        }
    }

    /// Is there no position?
    pub fn is_none(&self) -> (r: bool)
        ensures
            r == (self.line == 0),
    {
        self.line == 0
    }

    /// Get the line number (1-based), or [`None`] if there is no position.
    pub fn line(&self) -> (r: Option<usize>)
        ensures
            self.line == 0 ==> r is None,
            self.line != 0 ==> r == Some(self.line as usize),
    {
        if self.line == 0 {
            None
        } else {
            Some(self.line as usize)
        }
    }

    /// Get the character position (1-based), or [`None`] if at the beginning of a line
    /// or if there is no position.
    pub fn position(&self) -> (r: Option<usize>)
        ensures
            (self.line == 0 || self.pos == 0) ==> r is None,
            (self.line != 0 && self.pos != 0) ==> r == Some(self.pos as usize),
    {
        if self.line == 0 || self.pos == 0 {
            None
        } else {
            Some(self.pos as usize)
        }
    }
}

} // verus!
