//! Source spans. Both byte offsets (for slicing) and 1-based line/column
//! pairs (for human-facing diagnostics and LSP) are stored.

use vstd::prelude::*;

verus! {

#[derive(Clone, Copy, Debug, PartialEq, Eq, Hash, Default, Structural)]
pub struct Pos {
    /// Byte offset from start of file.
    pub byte: usize,
    /// 1-based line number.
    pub line: u32,
    /// 1-based column number, counted in UTF-8 byte offsets within the line.
    pub col: u32,
}

impl Pos {
    pub fn new(byte: usize, line: u32, col: u32) -> (r: Self)
        ensures
            r == (Pos { byte, line, col }),
    {
        Self { byte, line, col }
    }
}

#[derive(Clone, Copy, Debug, PartialEq, Eq, Hash, Default, Structural)]
pub struct Span {
    pub start: Pos,
    pub end: Pos,
}

/// The span that `merge` produces: the earlier start and the later end,
/// compared by byte offset (ties keep `a`'s position).
pub open spec fn merged_span(a: Span, b: Span) -> Span {
    Span {
        start: if a.start.byte <= b.start.byte {
            a.start
        } else {
            b.start
        },
        end: if a.end.byte >= b.end.byte {
            a.end
        } else {
            b.end
        },
    }
}

impl Span {
    pub fn new(start: Pos, end: Pos) -> (r: Self)
        ensures
            r == (Span { start, end }),
    {
        Self { start, end }
    }

    /// Span that covers the single-character position `p`.
    pub fn point(p: Pos) -> (r: Self)
        ensures
            r == (Span { start: p, end: p }),
    {
        Self { start: p, end: p }
    }

    /// Smallest span that covers both `self` and `other`.
    pub fn merge(self, other: Span) -> (r: Span)
        ensures
            r == merged_span(self, other),
    {
        let start = if self.start.byte <= other.start.byte {
            self.start
        } else {
            other.start
        };
        let end = if self.end.byte >= other.end.byte {
            self.end
        } else {
            other.end
        };
        Span { start, end }
    }
}

/// A merged span starts no later and ends no earlier than either input,
/// and its ends are taken from the inputs.
pub proof fn lemma_merge_covers(a: Span, b: Span)
    ensures
        merged_span(a, b).start.byte <= a.start.byte,
        merged_span(a, b).start.byte <= b.start.byte,
        merged_span(a, b).end.byte >= a.end.byte,
        merged_span(a, b).end.byte >= b.end.byte,
        merged_span(a, b).start == a.start || merged_span(a, b).start == b.start,
        merged_span(a, b).end == a.end || merged_span(a, b).end == b.end,
{
}

/// Merging a span with itself gives the span back, and merging is
/// symmetric on the byte offsets it produces.
pub proof fn lemma_merge_idempotent_symmetric(a: Span, b: Span)
    ensures
        merged_span(a, a) == a,
        merged_span(a, b).start.byte == merged_span(b, a).start.byte,
        merged_span(a, b).end.byte == merged_span(b, a).end.byte,
{
}

/// Merging is associative.
pub proof fn lemma_merge_associative(a: Span, b: Span, c: Span)
    ensures
        merged_span(merged_span(a, b), c) == merged_span(a, merged_span(b, c)),
{
}

} // verus!
