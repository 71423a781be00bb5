//! Half-open byte ranges over the text of a document.

use vstd::prelude::*;

verus! {

/// A half-open interval `start..end` of byte offsets.
#[derive(Clone, Copy, Debug, PartialEq, Eq, Structural)]
pub struct Span {
    pub start: u32,
    pub end: u32,
}

impl Span {
    /// A span is well formed when it does not end before it starts.
    pub open spec fn well_formed(self) -> bool {
        self.start <= self.end
    }

    /// The smallest span that holds both `self` and `other`.
    pub open spec fn spec_cover(self, other: Span) -> Span {
        Span {
            start: if self.start <= other.start { self.start } else { other.start },
            end: if self.end >= other.end { self.end } else { other.end },
        }
    }

    /// Whether `offset` lies in `start..end`.
    pub open spec fn spec_contains(self, offset: u32) -> bool {
        self.start <= offset < self.end
    }

    /// Whether `offset` lies in `start..=end`.
    pub open spec fn spec_contains_inclusive(self, offset: u32) -> bool {
        self.start <= offset <= self.end
    }

    /// The offset of the last byte of the span, or zero for a span that ends at zero.
    pub open spec fn spec_last_offset(self) -> u32 {
        if self.end >= 1 { (self.end - 1) as u32 } else { 0 }
    }

    /// Whether `self` lies inside `outer`.
    pub open spec fn spec_within(self, outer: Span) -> bool {
        outer.start <= self.start && self.end <= outer.end
    }

    pub fn new(start: u32, end: u32) -> (r: Span)
        requires
            start <= end,
        ensures
            r == (Span { start, end }),
            r.well_formed(),
    {
        Span { start, end }
    }

    pub fn start(&self) -> (r: u32)
        ensures
            r == self.start,
    {
        self.start
    }

    pub fn end(&self) -> (r: u32)
        ensures
            r == self.end,
    {
        self.end
    }

    pub fn cover(&self, other: Span) -> (r: Span)
        ensures
            r == self.spec_cover(other),
    {
        Span {
            start: if self.start <= other.start { self.start } else { other.start },
            end: if self.end >= other.end { self.end } else { other.end },
        }
    }

    pub fn contains(&self, offset: u32) -> (r: bool)
        ensures
            r == self.spec_contains(offset),
    {
        self.start <= offset && offset < self.end
    }

    pub fn contains_inclusive(&self, offset: u32) -> (r: bool)
        ensures
            r == self.spec_contains_inclusive(offset),
    {
        self.start <= offset && offset <= self.end
    }

    pub fn last_offset(&self) -> (r: u32)
        ensures
            r == self.spec_last_offset(),
    {
        if self.end >= 1 { self.end - 1 } else { 0 }
    }

    pub fn within(&self, outer: Span) -> (r: bool)
        ensures
            r == self.spec_within(outer),
    {
        outer.start <= self.start && self.end <= outer.end
    }
}

/// The cover of the first `n` spans of a non-empty sequence.
pub open spec fn join_prefix(ranges: Seq<Span>, n: nat) -> Span
    decreases n,
{
    if n <= 1 {
        ranges[0]
    } else {
        ranges[n - 1].spec_cover(join_prefix(ranges, (n - 1) as nat))
    }
}

/// The smallest span that holds every span of a non-empty sequence.
pub open spec fn spec_join_ranges(ranges: Seq<Span>) -> Span {
    join_prefix(ranges, ranges.len())
}

/// The cover of two well-formed spans is well formed and holds both.
pub proof fn lemma_cover_holds_both(a: Span, b: Span)
    requires
        a.well_formed(),
        b.well_formed(),
    ensures
        a.spec_cover(b).well_formed(),
        a.spec_within(a.spec_cover(b)),
        b.spec_within(a.spec_cover(b)),
        a.spec_cover(b) == b.spec_cover(a),
{
}

/// The join of a non-empty sequence holds each of its spans.
pub proof fn lemma_join_holds_each(ranges: Seq<Span>, n: nat, i: int)
    requires
        0 <= i < n <= ranges.len(),
    ensures
        ranges[i].spec_within(join_prefix(ranges, n)),
    decreases n,
{
    if n > 1 && i < n - 1 {
        lemma_join_holds_each(ranges, (n - 1) as nat, i);
    }
}

/// Joins the spans of a non-empty list into the one span that covers them all.
pub fn join_ranges(ranges: &Vec<Span>) -> (r: Span)
    requires
        ranges.len() > 0,
    ensures
        r == spec_join_ranges(ranges@),
{
    let mut joined = ranges[0];
    let mut i: usize = 1;
    while i < ranges.len()
        invariant
            1 <= i <= ranges.len(),
            joined == join_prefix(ranges@, i as nat),
        decreases ranges.len() - i,
    {
        joined = ranges[i].cover(joined);
        i += 1;
    }
    joined
}

} // verus!
