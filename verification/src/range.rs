use vstd::prelude::*;

verus! {

/// Declares std's `RangeTo` (`..b`), a struct of one public field, so that it
/// can stand in signatures and its `end` field can be read.
#[verifier::external_type_specification]
pub struct ExRangeTo<Idx>(core::ops::RangeTo<Idx>);

/// Declares std's `RangeFrom` (`a..`), a struct of one public field, so that
/// it can stand in signatures and its `start` field can be read.
#[verifier::external_type_specification]
pub struct ExRangeFrom<Idx>(core::ops::RangeFrom<Idx>);

/// Declares std's `RangeFull` (`..`), a unit struct, so that it can stand in
/// signatures.
#[verifier::external_type_specification]
pub struct ExRangeFull(core::ops::RangeFull);

/// A range argument selecting a window out of a region of bytes: one of
/// `a..b`, `a..`, `..b` or `..`, resolved against the region's length.
pub trait SliceRange {
    /// Start offset the range denotes against a region of the given length.
    spec fn spec_start(&self, max_len: int) -> int;

    /// End offset the range denotes against a region of the given length.
    spec fn spec_end(&self, max_len: int) -> int;

    /// Resolves the range against a region of `max_len` bytes.
    fn bounds(&self, max_len: usize) -> (r: (usize, usize))
        requires
            0 <= self.spec_start(max_len as int),
            self.spec_start(max_len as int) <= self.spec_end(max_len as int),
            self.spec_end(max_len as int) <= max_len as int,
        ensures
            r.0 == self.spec_start(max_len as int),
            r.1 == self.spec_end(max_len as int),
    ;
}

/// The window denoted by `range` lies within a region of length `max_len`.
pub open spec fn range_in_bounds<R: SliceRange + ?Sized>(range: &R, max_len: int) -> bool {
    0 <= range.spec_start(max_len) && range.spec_start(max_len) <= range.spec_end(max_len)
        && range.spec_end(max_len) <= max_len
}

impl SliceRange for core::ops::Range<usize> {
    open spec fn spec_start(&self, max_len: int) -> int {
        self.start as int
    }

    open spec fn spec_end(&self, max_len: int) -> int {
        self.end as int
    }

    fn bounds(&self, max_len: usize) -> (r: (usize, usize)) {
        (self.start, self.end)
    }
}

impl SliceRange for core::ops::RangeTo<usize> {
    open spec fn spec_start(&self, max_len: int) -> int {
        0
    }

    open spec fn spec_end(&self, max_len: int) -> int {
        self.end as int
    }

    fn bounds(&self, max_len: usize) -> (r: (usize, usize)) {
        (0, self.end)
    }
}

impl SliceRange for core::ops::RangeFrom<usize> {
    open spec fn spec_start(&self, max_len: int) -> int {
        self.start as int
    }

    open spec fn spec_end(&self, max_len: int) -> int {
        max_len
    }

    fn bounds(&self, max_len: usize) -> (r: (usize, usize)) {
        (self.start, max_len)
    }
}

impl SliceRange for core::ops::RangeFull {
    open spec fn spec_start(&self, max_len: int) -> int {
        0
    }

    open spec fn spec_end(&self, max_len: int) -> int {
        max_len
    }

    fn bounds(&self, max_len: usize) -> (r: (usize, usize)) {
        (0, max_len)
    }
}

/// Start and end offsets denoted by `range` against a region of `max_len`
/// bytes.
pub fn get_range<R: SliceRange>(range: &R, max_len: usize) -> (r: (usize, usize))
    requires
        range_in_bounds(range, max_len as int),
    ensures
        r.0 == range.spec_start(max_len as int),
        r.1 == range.spec_end(max_len as int),
        r.0 <= r.1 && r.1 <= max_len,
{
    range.bounds(max_len)
}

} // verus!
