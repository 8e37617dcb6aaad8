use std::ops::Range;
use vstd::prelude::*;

verus! {

/// A span of source text: the line and column where it begins and the range of
/// bytes it covers.
#[derive(Debug, PartialEq)]
pub struct Position {
    pub line: usize,
    pub column: usize,
    pub range: Range<usize>,
}

impl Clone for Position {
    fn clone(&self) -> (r: Self)
        ensures
            r == *self,
    {
        Position {
            line: self.line,
            column: self.column,
            range: Range { start: self.range.start, end: self.range.end },
        }
    }
}

impl Default for Position {
    /// The empty span at the beginning of nothing.
    fn default() -> (r: Self)
        ensures
            r == (Position { line: 0, column: 0, range: Range { start: 0, end: 0 } }),
    {
        Position { line: 0, column: 0, range: Range { start: 0, end: 0 } }
    }
}

impl Position {
    pub fn new(line: usize, column: usize, range: Range<usize>) -> (r: Self)
        ensures
            r.line == line,
            r.column == column,
            r.range == range,
    {
        Self { line, column, range }
    }

    /// The span that `merge` returns: it begins where `self` begins and covers
    /// the bytes of both spans.
    pub open spec fn merged(self, other: Position) -> Position {
        Position {
            line: self.line,
            column: self.column,
            range: Range {
                start: if self.range.start <= other.range.start {
                    self.range.start
                } else {
                    other.range.start
                },
                end: if self.range.end >= other.range.end {
                    self.range.end
                } else {
                    other.range.end
                },
            },
        }
    }

    /// The smallest span that covers both `self` and `other`; line and column
    /// are those of `self`.
    pub fn merge(&self, other: Position) -> (r: Self)
        ensures
            r == self.merged(other),
    {
        let start = if self.range.start <= other.range.start {
            self.range.start
        } else {
            other.range.start
        };
        let end = if self.range.end >= other.range.end {
            self.range.end
        } else {
            other.range.end
        };
        Self { line: self.line, column: self.column, range: Range { start, end } }
    }
}

/// The merged span is the smallest range of bytes that covers both spans: it
/// begins where the earlier of the two begins and ends where the later ends.
pub proof fn lemma_merge_covers(p: Position, q: Position)
    ensures
        p.merged(q).range.start <= p.range.start,
        p.merged(q).range.start <= q.range.start,
        p.merged(q).range.end >= p.range.end,
        p.merged(q).range.end >= q.range.end,
        p.merged(q).range.start == p.range.start || p.merged(q).range.start == q.range.start,
        p.merged(q).range.end == p.range.end || p.merged(q).range.end == q.range.end,
{
}

} // verus!
