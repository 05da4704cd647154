//! Source-location metadata attached to a node.

use vstd::prelude::*;

verus! {

/// Location of a node in the original source text, as 1-based line/column
/// ranges. Present only on nodes produced by a parser that tracks positions;
/// synthesized nodes carry no span.
#[derive(Debug, Clone, Copy, PartialEq, Eq, Structural)]
pub struct Span {
    /// Start line (1-based)
    pub start_line: usize,
    /// Start column (1-based)
    pub start_col: usize,
    /// End line (1-based)
    pub end_line: usize,
    /// End column (1-based)
    pub end_col: usize,
}

impl Span {
    /// Creates a new span from its four coordinates.
    pub fn new(start_line: usize, start_col: usize, end_line: usize, end_col: usize) -> (r: Span)
        ensures
            r.start_line == start_line,
            r.start_col == start_col,
            r.end_line == end_line,
            r.end_col == end_col,
    {
        Span { start_line, start_col, end_line, end_col }
    }
}

} // verus!
