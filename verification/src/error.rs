//! Diagnostics and the places in the template that they point at.

use vstd::prelude::*;

verus! {

/// A place in the template's text.
#[derive(Clone, Copy, Debug, PartialEq, Eq, Structural)]
pub struct Position {
    /// Offset from the start of the text.
    pub offset: usize,
    /// Line, counted from 1.
    pub line: u32,
    /// Column, counted from 1.
    pub column: u32,
}

/// The span of the template's text that a node or an attribute was read from.
#[derive(Clone, Copy, Debug, PartialEq, Eq, Structural)]
pub struct SourceLocation {
    pub start: Position,
    pub end: Position,
}

impl Default for Position {
    /// The start of the text.
    fn default() -> (r: Self)
        ensures
            r == (Position { offset: 0, line: 1, column: 1 }),
    {
        Position { offset: 0, line: 1, column: 1 }
    }
}

impl Default for SourceLocation {
    /// The empty span at the start of the text.
    fn default() -> (r: Self)
        ensures
            r == SourceLocation::origin(),
    {
        SourceLocation {
            start: Position { offset: 0, line: 1, column: 1 },
            end: Position { offset: 0, line: 1, column: 1 },
        }
    }
}

impl SourceLocation {
    /// The empty span at the start of the text.
    pub open spec fn origin() -> SourceLocation {
        SourceLocation {
            start: Position { offset: 0, line: 1, column: 1 },
            end: Position { offset: 0, line: 1, column: 1 },
        }
    }
}

/// What is wrong with an iteration directive.
#[derive(Clone, Copy, Debug, PartialEq, Eq, Structural)]
pub enum CompilationErrorKind {
    /// The directive has no expression, or one of white space only.
    VForNoExpression,
    /// The expression holds neither ` in ` nor ` of `.
    VForMalformedExpression,
}

/// One diagnostic: what is wrong, and where.
#[derive(Clone, Copy, Debug, PartialEq, Eq, Structural)]
pub struct CompilationError {
    pub kind: CompilationErrorKind,
    pub location: SourceLocation,
}

impl CompilationError {
    /// A diagnostic of the given kind that points at the start of the text.
    pub fn new(kind: CompilationErrorKind) -> (r: Self)
        ensures
            r == (CompilationError { kind, location: SourceLocation::origin() }),
    {
        CompilationError { kind, location: SourceLocation::default() }
    }

    /// The same diagnostic, pointing at `location`.
    pub fn with_location(self, location: SourceLocation) -> (r: Self)
        ensures
            r == (CompilationError { kind: self.kind, location }),
    {
        CompilationError { kind: self.kind, location }
    }
}

} // verus!
