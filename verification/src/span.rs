//! Half-open byte ranges into PDL source text.
use vstd::prelude::*;

verus! {

/// A half-open byte range `[start, end)` into a source text.
#[derive(Clone, Copy, Debug, Default, Eq, Hash, PartialEq, Structural)]
pub struct Span {
    pub start: usize,
    pub end: usize,
}

impl Span {
    /// Whether `start <= end`, as every span built by `new` is.
    pub open spec fn well_formed(self) -> bool {
        self.start <= self.end
    }

    pub open spec fn spec_cover(self, other: Span) -> Span {
        Span {
            start: if self.start <= other.start { self.start } else { other.start },
            end: if self.end >= other.end { self.end } else { other.end },
        }
    }

    pub open spec fn spec_contains(self, offset: usize) -> bool {
        self.start <= offset && offset < self.end
    }

    pub fn new(start: usize, end: usize) -> (r: Self)
        requires
            start <= end,
        ensures
            r.start == start,
            r.end == end,
    {
        Span { start, end }
    }

    pub fn empty(offset: usize) -> (r: Self)
        ensures
            r.start == offset,
            r.end == offset,
    {
        Span { start: offset, end: offset }
    }

    pub fn zero() -> (r: Self)
        ensures
            r.start == 0,
            r.end == 0,
    {
        Self::empty(0)
    }

    pub fn len(self) -> (r: usize)
        requires
            self.well_formed(),
        ensures
            r == self.end - self.start,
    {
        self.end - self.start
    }

    pub fn is_empty(self) -> (r: bool)
        ensures
            r == (self.start == self.end),
    {
        self.start == self.end
    }

    pub fn contains(self, offset: usize) -> (r: bool)
        ensures
            r == self.spec_contains(offset),
    {
        self.start <= offset && offset < self.end
    }

    pub fn cover(self, other: Span) -> (r: Self)
        ensures
            r == self.spec_cover(other),
    {
        Span {
            start: if self.start <= other.start { self.start } else { other.start },
            end: if self.end >= other.end { self.end } else { other.end },
        }
    }

    pub fn join(self, other: Span) -> (r: Self)
        ensures
            r == self.spec_cover(other),
    {
        self.cover(other)
    }
}

/// Covering is commutative: `a.cover(b) == b.cover(a)`.
pub proof fn lemma_cover_commutative(a: Span, b: Span)
    ensures
        a.spec_cover(b) == b.spec_cover(a),
{
}

/// Covering is associative, so a span covering many spans does not depend
/// on how they were grouped.
pub proof fn lemma_cover_associative(a: Span, b: Span, c: Span)
    ensures
        a.spec_cover(b).spec_cover(c) == a.spec_cover(b.spec_cover(c)),
{
}

/// Covering a span with itself gives the span back.
pub proof fn lemma_cover_idempotent(a: Span)
    ensures
        a.spec_cover(a) == a,
{
}

/// The cover of two well-formed spans is well-formed, starts no later and
/// ends no earlier than either, and so contains every offset either contains.
pub proof fn lemma_cover_contains_both(a: Span, b: Span, offset: usize)
    requires
        a.well_formed(),
        b.well_formed(),
    ensures
        a.spec_cover(b).well_formed(),
        a.spec_cover(b).start <= a.start,
        a.spec_cover(b).start <= b.start,
        a.spec_cover(b).end >= a.end,
        a.spec_cover(b).end >= b.end,
        a.spec_contains(offset) ==> a.spec_cover(b).spec_contains(offset),
        b.spec_contains(offset) ==> a.spec_cover(b).spec_contains(offset),
{
}

/// Spans are half-open: an empty span contains no offset, and a well-formed
/// span contains exactly its `len` offsets `start .. end`.
pub proof fn lemma_half_open(a: Span, offset: usize)
    ensures
        a.start == a.end ==> !a.spec_contains(offset),
        a.spec_contains(offset) <==> (a.start <= offset && offset < a.end),
        a.spec_contains(a.start) <==> a.start < a.end,
        !a.spec_contains(a.end),
{
}

} // verus!
