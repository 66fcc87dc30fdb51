//! Places in a source text.
use vstd::prelude::*;

verus! {

/// A place in a source text. Lines and columns are counted from one; a
/// count that would pass `usize::MAX` stays there.
#[derive(Clone, Copy, Debug, PartialEq, Eq, Structural, Hash)]
pub struct Pos {
    pub line: usize,
    pub column: usize,
}

impl DeepView for Pos {
    type V = Pos;

    open spec fn deep_view(&self) -> Pos {
        *self
    }
}

/// The count `n`, held within what a `usize` can carry.
pub open spec fn clip(n: int) -> usize {
    if n >= usize::MAX {
        usize::MAX
    } else if n <= 0 {
        0
    } else {
        n as usize
    }
}

impl Pos {
    /// Where every text begins: line one, column one.
    pub open spec fn origin() -> Pos {
        Pos { line: 1, column: 1 }
    }

    /// The place `n` columns further on the same line.
    pub open spec fn right(self, n: int) -> Pos {
        Pos { line: self.line, column: clip(self.column + n) }
    }

    /// The first column of the next line.
    pub open spec fn below(self) -> Pos {
        Pos { line: clip(self.line + 1), column: 1 }
    }

    /// The place behind the character `c`, where `c` stands at `self`
    /// inside a token: a line feed opens a new line, any other character
    /// takes one column.
    pub open spec fn after(self, c: char) -> Pos {
        if c == '\n' {
            self.below()
        } else {
            self.right(1)
        }
    }

    /// Where every text begins.
    pub fn start() -> (p: Pos)
        ensures
            p == Pos::origin(),
    {
        Pos { line: 1, column: 1 }
    }

    /// The place `n` columns further on the same line.
    pub fn shifted(self, n: usize) -> (p: Pos)
        ensures
            p == self.right(n as int),
    {
        Pos { line: self.line, column: self.column.saturating_add(n) }
    }

    /// The first column of the next line.
    pub fn next_line(self) -> (p: Pos)
        ensures
            p == self.below(),
    {
        Pos { line: self.line.saturating_add(1), column: 1 }
    }

    /// The place behind the character `c` that stands at this place inside a
    /// token.
    pub fn past(self, c: char) -> (p: Pos)
        ensures
            p == self.after(c),
    {
        if c == '\n' {
            self.next_line()
        } else {
            self.shifted(1)
        }
    }
}

} // verus!
