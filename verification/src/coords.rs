//! Positions in a document and the table that maps byte offsets to them.

use crate::span::Span;
use vstd::prelude::*;

verus! {

/// A place in a document: a zero-based line and a character offset in that line.
#[derive(Clone, Copy, Debug, PartialEq, Eq, Structural)]
pub struct Position {
    pub line: u32,
    pub character: u32,
}

/// The positions of the two ends of a span.
#[derive(Clone, Copy, Debug, PartialEq, Eq, Structural)]
pub struct Range {
    pub start: Position,
    pub end: Position,
}

/// Maps byte offsets to positions: entry `i` of the table is the position of offset `i`.
pub struct Mapper {
    positions: Vec<Position>,
}

impl View for Mapper {
    type V = Seq<Position>;

    closed spec fn view(&self) -> Seq<Position> {
        self.positions@
    }
}

impl Mapper {
    /// Whether the mapper knows the position of `offset`.
    pub open spec fn maps(&self, offset: u32) -> bool {
        offset < self@.len()
    }

    /// Whether the mapper knows the position of every offset up to and including the end of `span`.
    pub open spec fn covers(&self, span: Span) -> bool {
        span.start <= span.end && self.maps(span.end)
    }

    pub open spec fn spec_position(&self, offset: u32) -> Option<Position> {
        if self.maps(offset) {
            Some(self@[offset as int])
        } else {
            None
        }
    }

    /// The position of a mapped offset.
    pub open spec fn at(&self, offset: u32) -> Position {
        self@[offset as int]
    }

    pub open spec fn spec_range(&self, span: Span) -> Option<Range> {
        if self.maps(span.start) && self.maps(span.end) {
            Some(Range { start: self.at(span.start), end: self.at(span.end) })
        } else {
            None
        }
    }

    /// A mapper over the given table of positions, one per byte offset.
    pub fn new(positions: Vec<Position>) -> (m: Mapper)
        ensures
            m@ == positions@,
    {
        Mapper { positions }
    }

    /// The number of offsets that the mapper knows.
    pub fn len(&self) -> (n: usize)
        ensures
            n == self@.len(),
    {
        self.positions.len()
    }

    /// Decides `covers`.
    pub fn is_covering(&self, span: Span) -> (r: bool)
        ensures
            r == self.covers(span),
    {
        span.start <= span.end && (span.end as usize) < self.positions.len()
    }

    pub fn position(&self, offset: u32) -> (r: Option<Position>)
        ensures
            r == self.spec_position(offset),
    {
        if (offset as usize) < self.positions.len() {
            Some(self.positions[offset as usize])
        } else {
            None
        }
    }

    /// The position of an offset that the mapper knows.
    pub fn locate(&self, offset: u32) -> (r: Position)
        requires
            self.maps(offset),
        ensures
            r == self.at(offset),
    {
        self.positions[offset as usize]
    }

    pub fn range(&self, span: Span) -> (r: Option<Range>)
        ensures
            r == self.spec_range(span),
    {
        match self.position(span.start) {
            Some(start) => match self.position(span.end) {
                Some(end) => Some(Range { start, end }),
                None => None,
            },
            None => None,
        }
    }
}

} // verus!
