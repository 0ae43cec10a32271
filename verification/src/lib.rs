//! An append-only byte buffer whose committed bytes can be shared as
//! immutable, cheaply cloneable slices.
//!
//! [`AppendOnlyBytes`] is the single writer: it appends at the end of its
//! committed region and never overwrites, relocates or shortens bytes that
//! were already written. [`BytesSlice`] is an immutable view over a range of
//! committed bytes; once minted, its content never changes, however much the
//! buffer keeps growing afterwards.

use std::sync::Arc;

use vstd::prelude::*;
use vstd::arithmetic::power2::lemma_pow2_pos;
use vstd::arithmetic::power2::lemma_pow2_strictly_increases;
use vstd::arithmetic::power2::lemma_pow2_unfold;
use vstd::arithmetic::power2::lemma2_to64;
use vstd::arithmetic::power2::pow2;
use vstd::string::StringSliceAdditionalSpecFns;

pub mod codec;
mod range;
mod raw_bytes;

use raw_bytes::RawBytes;

pub use range::SliceRange;
pub use range::get_range;
pub use range::range_in_bounds;

verus! {

/// Capacity floor used when a buffer needs to grow.
pub const MIN_CAPACITY: usize = 32;

/// Smallest value reached from `base` by repeated doubling that is at least
/// `target`.
pub open spec fn double_until(base: nat, target: nat) -> nat
    decreases (if base < target { target - base } else { 0 }),
    when base >= 1
{
    if base >= target {
        base
    } else {
        double_until(2 * base, target)
    }
}

/// Capacity of the block allocated when a buffer with block capacity `cap`
/// grows to hold at least `target` bytes: the smallest capacity of the form
/// `max(MIN_CAPACITY, cap) * 2^k` that is at least `target`.
pub open spec fn grown_capacity(cap: nat, target: nat) -> nat {
    double_until(if cap >= MIN_CAPACITY { cap } else { MIN_CAPACITY as nat }, target)
}

/// Repeated doubling reaches the target, never shrinks its starting point,
/// at least doubles it when it was short of the target, and overshoots the
/// target by less than a factor of two.
proof fn lemma_double_until(base: nat, target: nat)
    requires
        base >= 1,
    ensures
        double_until(base, target) >= target,
        double_until(base, target) >= base,
        base < target ==> double_until(base, target) >= 2 * base,
        base < target ==> double_until(base, target) < 2 * target,
    decreases (if base < target { target - base } else { 0 }),
{
    if base < target {
        lemma_double_until(2 * base, target);
    }
}

/// The growable byte buffer: the sole writer over its storage block.
#[derive(Debug)]
pub struct AppendOnlyBytes {
    raw: RawBytes,
    block: Arc<u64>,
}

impl View for AppendOnlyBytes {
    type V = Seq<u8>;

    /// The committed bytes, in the order they were appended.
    closed spec fn view(&self) -> Seq<u8> {
        self.raw@
    }
}

impl AppendOnlyBytes {
    /// An append of `add` bytes stays within the machine's limits: either it
    /// fits in the current block, or the grown block's doubled capacity still
    /// fits in `usize`.
    pub open spec fn can_reserve(&self, add: nat) -> bool {
        self@.len() + add <= self.spec_capacity() || self@.len() + add <= usize::MAX / 2
    }

    /// How the storage block evolves when `add` bytes are appended to (or
    /// reserved in) `pre`: either they fit and the block stays as it is, or
    /// the block is replaced by one sized by the doubling policy, under a
    /// fresh generation tag.
    pub open spec fn storage_after(pre: Self, post: Self, add: nat) -> bool {
        &&& (pre@.len() + add <= pre.spec_capacity() ==> post.spec_capacity()
            == pre.spec_capacity() && post.spec_block() == pre.spec_block())
        &&& (pre@.len() + add > pre.spec_capacity() ==> post.spec_capacity() == grown_capacity(
            pre.spec_capacity() as nat,
            (pre@.len() + add) as nat,
        ) && post.spec_block() == pre.spec_block() + 1)
    }

    /// Capacity of the current storage block.
    pub closed spec fn spec_capacity(&self) -> usize {
        self.raw.spec_capacity()
    }

    /// Generation tag of the current storage block. The block's identity is
    /// the marker allocation holding this tag: growth replaces the marker and
    /// moves to a fresh tag, and slices minted from the buffer share the
    /// marker of the block they were cut from. Distinct tags always mean
    /// distinct blocks; whether two equal tags are one block is decided by
    /// the marker allocations at run time.
    pub closed spec fn spec_block(&self) -> u64 {
        *self.block
    }

    /// Internal well-formedness: the committed bytes fit in the block, and
    /// the generation tag is backed by the doubling growth policy (a block of
    /// generation g, for g >= 1, has capacity at least MIN_CAPACITY * 2^(g-1),
    /// which keeps the tag far away from overflowing).
    pub closed spec fn wf(&self) -> bool {
        &&& self.raw.wf()
        &&& (self.spec_block() == 0 || 32 * pow2((self.spec_block() - 1) as nat) <= self.raw.spec_capacity())
    }

    /// An empty buffer over a block of capacity 0; the first append allocates.
    pub fn new() -> (r: Self)
        ensures
            r.wf(),
            r@ == Seq::<u8>::empty(),
            r.spec_capacity() == 0,
    {
        Self::with_capacity(0)
    }

    /// An empty buffer over a block of exactly the given capacity.
    pub fn with_capacity(capacity: usize) -> (r: Self)
        ensures
            r.wf(),
            r@ == Seq::<u8>::empty(),
            r.spec_capacity() == capacity,
    {
        AppendOnlyBytes { raw: RawBytes::with_capacity(capacity), block: Arc::new(0u64) }
    }

    /// Number of committed bytes.
    pub fn len(&self) -> (r: usize)
        ensures
            r == self@.len(),
    {
        self.raw.len()
    }

    /// Capacity of the current block; always at least `len()`.
    pub fn capacity(&self) -> (r: usize)
        requires
            self.wf(),
        ensures
            r == self.spec_capacity(),
            self@.len() <= r,
    {
        self.raw.capacity()
    }

    pub fn is_empty(&self) -> (r: bool)
        ensures
            r == (self@.len() == 0),
    {
        self.len() == 0
    }

    /// A well-formed buffer's generation tag is small: each growth step at
    /// least doubles a capacity that is bounded by `usize::MAX`.
    proof fn lemma_block_bound(&self)
        requires
            self.wf(),
        ensures
            self.spec_block() <= 64,
    {
        if self.spec_block() > 64 {
            lemma2_to64();
            lemma_pow2_strictly_increases(64, (self.spec_block() - 1) as nat);
            assert(pow2((self.spec_block() - 1) as nat) > usize::MAX as nat);
        }
    }

    /// Ensures the block can hold `size` more bytes, growing it first if
    /// needed; a no-op when the capacity already suffices. Growth replaces
    /// the storage block: the committed bytes are carried over unchanged and
    /// the buffer moves to a fresh generation tag.
    pub fn reserve(&mut self, size: usize)
        requires
            old(self).wf(),
            old(self).can_reserve(size as nat),
        ensures
            final(self).wf(),
            final(self)@ == old(self)@,
            old(self)@.len() + size <= final(self).spec_capacity(),
            old(self)@.len() + size <= old(self).spec_capacity() ==> *final(self) == *old(self),
            Self::storage_after(*old(self), *final(self), size as nat),
    {
        let len = self.raw.len();
        let capacity = self.raw.capacity();
        if size > capacity - len {
            let target = len + size;
            let base: usize = if capacity >= MIN_CAPACITY {
                capacity
            } else {
                MIN_CAPACITY
            };
            proof {
                lemma_double_until(base as nat, target as nat);
            }
            let mut new_capacity: usize = base;
            while new_capacity < target
                invariant
                    1 <= new_capacity,
                    target <= usize::MAX / 2,
                    double_until(new_capacity as nat, target as nat) == double_until(base as nat, target as nat),
                decreases (if new_capacity < target { target - new_capacity } else { 0 }),
            {
                new_capacity = new_capacity * 2;
            }
            let generation: u64 = *self.block;
            proof {
                lemma_double_until(base as nat, target as nat);
                lemma2_to64();
                self.lemma_block_bound();
                if generation > 0 {
                    lemma_pow2_pos((generation - 1) as nat);
                    lemma_pow2_unfold(generation as nat);
                }
            }
            self.raw.grow(new_capacity);
            self.block = Arc::new(generation + 1);
        }
    }

    /// Appends one byte at the end of the committed region, growing first if
    /// the block is full.
    pub fn push(&mut self, byte: u8)
        requires
            old(self).wf(),
            old(self).can_reserve(1),
        ensures
            final(self).wf(),
            final(self)@ == old(self)@.push(byte),
            Self::storage_after(*old(self), *final(self), 1),
    {
        self.reserve(1);
        self.raw.push(byte);
    }

    /// Appends all the given bytes, in order, growing at most once.
    pub fn push_slice(&mut self, slice: &[u8])
        requires
            old(self).wf(),
            old(self).can_reserve(slice@.len()),
        ensures
            final(self).wf(),
            final(self)@ == old(self)@ + slice@,
            Self::storage_after(*old(self), *final(self), slice@.len()),
    {
        let n = slice.len();
        self.reserve(n);
        let ghost base_view = self@;
        let ghost capacity_now = self.spec_capacity();
        let ghost block_now = self.spec_block();
        let mut i: usize = 0;
        while i < n
            invariant
                i <= n,
                n == slice@.len(),
                self.raw.wf(),
                self@ == base_view + slice@.subrange(0, i as int),
                self@.len() == base_view.len() + i,
                base_view.len() + n <= self.spec_capacity(),
                self.spec_capacity() == capacity_now,
                self.spec_block() == block_now,
            decreases n - i,
        {
            self.raw.push(*vstd::slice::slice_index_get(slice, i));
            proof {
                assert(self@ == base_view + slice@.subrange(0, i + 1)) by {
                    assert(slice@.subrange(0, i + 1) == slice@.subrange(0, i as int).push(
                        slice@[i as int],
                    ));
                }
            }
            i = i + 1;
        }
        proof {
            assert(slice@.subrange(0, n as int) == slice@);
        }
    }

    /// Appends the text's encoded bytes.
    pub fn push_str(&mut self, text: &str)
        requires
            old(self).wf(),
            old(self).can_reserve(text.spec_bytes().len()),
        ensures
            final(self).wf(),
            final(self)@ == old(self)@ + text.spec_bytes(),
            Self::storage_after(*old(self), *final(self), text.spec_bytes().len()),
    {
        self.push_slice(text.as_bytes());
    }

    /// The byte at the given committed position.
    pub fn get(&self, index: usize) -> (r: u8)
        requires
            index < self@.len(),
        ensures
            r == self@[index as int],
    {
        self.raw.get(index)
    }

    /// Read-only view of all committed bytes, without copying.
    pub fn as_bytes(&self) -> (r: &[u8])
        ensures
            r@ == self@,
    {
        let n = self.raw.len();
        let r = self.raw.slice(0, n);
        proof {
            assert(self@.subrange(0, self@.len() as int) == self@);
        }
        r
    }

    /// Shared slice over the committed range, resolved against `len()`. The
    /// slice snapshots the committed bytes it covers and shares the current
    /// block's identity marker, so adjacent slices cut from the same block
    /// can later be merged.
    pub fn slice<R: SliceRange>(&self, range: R) -> (r: BytesSlice)
        requires
            range_in_bounds(&range, self@.len() as int),
        ensures
            r.wf(),
            r@ == self@.subrange(range.spec_start(self@.len() as int), range.spec_end(self@.len() as int)),
            r.spec_start() == range.spec_start(self@.len() as int),
            r.spec_end() == range.spec_end(self@.len() as int),
            r.spec_block() == self.spec_block(),
    {
        let n = self.raw.len();
        let (start, end) = get_range(&range, n);
        let data = vstd::slice::slice_to_vec(self.raw.slice(0, end));
        let r = BytesSlice::new(Arc::new(RawBytes::from_vec(data)), self.block.clone(), start, end);
        proof {
            assert(self@.subrange(0, end as int).subrange(start as int, end as int) =~= self@.subrange(start as int, end as int));
        }
        r
    }

    /// The committed range interpreted as text; fails with a decode error
    /// exactly when the bytes are not valid UTF-8.
    pub fn slice_str<R: SliceRange>(&self, range: R) -> (r: Result<&str, DecodeFailed>)
        requires
            range_in_bounds(&range, self@.len() as int),
        ensures
            r is Ok <==> vstd::utf8::valid_utf8(self@.subrange(range.spec_start(self@.len() as int), range.spec_end(self@.len() as int))),
            r matches Ok(t) ==> t.spec_bytes() == self@.subrange(range.spec_start(self@.len() as int), range.spec_end(self@.len() as int)),
    {
        let n = self.raw.len();
        let (start, end) = get_range(&range, n);
        match utf8_from(self.raw.slice(start, end)) {
            Some(t) => Ok(t),
            None => Err(DecodeFailed),
        }
    }

    /// Consumes the buffer, returning one shared slice over the whole
    /// committed region, without copying.
    pub fn to_slice(self) -> (r: BytesSlice)
        ensures
            r.wf(),
            r@ == self@,
            r.spec_start() == 0,
            r.spec_end() == self@.len(),
            r.spec_block() == self.spec_block(),
    {
        let end = self.raw.len();
        let r = BytesSlice::new(Arc::new(self.raw), self.block, 0, end);
        proof {
            assert(self@.subrange(0, self@.len() as int) == self@);
        }
        r
    }
}

/// Error returned when a byte range does not hold valid UTF-8 text.
#[derive(Debug)]
pub struct DecodeFailed;

/// Error returned when two slices are not contiguous views of the same block.
#[derive(Debug)]
pub struct MergeFailed;

/// Relies on std::sync::Arc::ptr_eq: it returns true only when the two
/// handles share one allocation, and then the value both point to is one and
/// the same. Nothing is assumed when it returns false.
#[verifier::external_body]
fn same_handle<T>(a: &Arc<T>, b: &Arc<T>) -> (r: bool)
    ensures
        r ==> a == b,
{
    Arc::ptr_eq(a, b)
}

/// Relies on std::str::from_utf8: it succeeds exactly when the bytes are
/// valid UTF-8, and then the returned text is those very bytes read as text.
#[verifier::external_body]
fn utf8_from(bytes: &[u8]) -> (r: Option<&str>)
    ensures
        r is Some <==> vstd::utf8::valid_utf8(bytes@),
        r matches Some(t) ==> t.spec_bytes() == bytes@,
{
    match std::str::from_utf8(bytes) {
        Ok(t) => Some(t),
        Err(_) => None,
    }
}

/// An immutable, cheaply cloneable view over a range of committed bytes of a
/// storage block. Once minted its content never changes, however much the
/// buffer that produced it keeps appending, so it can be shared and read
/// across threads freely.
#[derive(Debug)]
pub struct BytesSlice {
    raw: Arc<RawBytes>,
    block: Arc<u64>,
    start: usize,
    end: usize,
}

impl View for BytesSlice {
    type V = Seq<u8>;

    /// The bytes the slice exposes.
    closed spec fn view(&self) -> Seq<u8> {
        self.raw@.subrange(self.start as int, self.end as int)
    }
}

impl BytesSlice {
    /// Start offset within the referenced block.
    pub closed spec fn spec_start(&self) -> usize {
        self.start
    }

    /// End offset within the referenced block.
    pub closed spec fn spec_end(&self) -> usize {
        self.end
    }

    /// Generation tag of the block the slice was cut from. The block's
    /// identity is the marker allocation holding the tag, which every slice
    /// of the block shares; the tag itself distinguishes the blocks of one
    /// buffer's lineage from each other.
    pub closed spec fn spec_block(&self) -> u64 {
        *self.block
    }

    /// What a successful merge requires: the generation tags match and the
    /// ranges are adjacent. Distinct tags always mean distinct blocks, so a
    /// pair that is not mergeable never merges; whether two slices with equal
    /// tags share the block is decided by their marker allocations at run
    /// time.
    pub open spec fn mergeable(&self, other: &Self) -> bool {
        self.spec_block() == other.spec_block() && self.spec_end() == other.spec_start()
    }

    /// Internal well-formedness: the offsets are ordered and the slice's
    /// handle holds the committed bytes up to its end offset.
    pub closed spec fn wf(&self) -> bool {
        self.start <= self.end && self.end <= self.raw@.len()
    }

    /// Builds a slice from a handle holding the committed bytes up to `end`
    /// and the marker of the block they belong to.
    fn new(raw: Arc<RawBytes>, block: Arc<u64>, start: usize, end: usize) -> (r: Self)
        requires
            start <= end,
            end <= raw@.len(),
        ensures
            r.wf(),
            r@ == raw@.subrange(start as int, end as int),
            r.spec_start() == start,
            r.spec_end() == end,
            r.spec_block() == *block,
    {
        BytesSlice { raw, block, start, end }
    }

    /// A standalone slice over a private block of its own, holding a copy of
    /// the given bytes: independent of any append buffer, and no pre-existing
    /// slice references its block (`ptr_eq` with any earlier slice is false).
    pub fn from_bytes(bytes: &[u8]) -> (r: Self)
        ensures
            r.wf(),
            r@ == bytes@,
            r.spec_start() == 0,
            r.spec_end() == bytes@.len(),
    {
        let data = vstd::slice::slice_to_vec(bytes);
        let end = data.len();
        let r = BytesSlice::new(Arc::new(RawBytes::from_vec(data)), Arc::new(0u64), 0, end);
        proof {
            assert(bytes@.subrange(0, bytes@.len() as int) == bytes@);
        }
        r
    }

    /// Number of bytes the slice exposes.
    pub fn len(&self) -> (r: usize)
        requires
            self.wf(),
        ensures
            r == self@.len(),
            r == self.spec_end() - self.spec_start(),
    {
        self.end - self.start
    }

    pub fn is_empty(&self) -> (r: bool)
        requires
            self.wf(),
        ensures
            r == (self@.len() == 0),
    {
        self.end == self.start
    }

    /// Start offset within the referenced block.
    pub fn start(&self) -> (r: usize)
        ensures
            r == self.spec_start(),
    {
        self.start
    }

    /// End offset within the referenced block.
    pub fn end(&self) -> (r: usize)
        ensures
            r == self.spec_end(),
    {
        self.end
    }

    /// The slice's bytes, without copying.
    pub fn as_bytes(&self) -> (r: &[u8])
        requires
            self.wf(),
        ensures
            r@ == self@,
    {
        self.raw.slice(self.start, self.end)
    }

    /// A new slice over a sub-range of this one, sharing the same block
    /// handle: no bytes are copied. The offsets are translated into the
    /// block's coordinate space.
    pub fn slice_clone<R: SliceRange>(&self, range: R) -> (r: Self)
        requires
            self.wf(),
            range_in_bounds(&range, self@.len() as int),
        ensures
            r.wf(),
            r@ == self@.subrange(range.spec_start(self@.len() as int), range.spec_end(self@.len() as int)),
            r.spec_start() == self.spec_start() + range.spec_start(self@.len() as int),
            r.spec_end() == self.spec_start() + range.spec_end(self@.len() as int),
            r.spec_block() == self.spec_block(),
    {
        let n = self.end - self.start;
        let (s, e) = get_range(&range, n);
        let r = BytesSlice::new(self.raw.clone(), self.block.clone(), self.start + s, self.start + e);
        proof {
            assert(self.raw@.subrange(self.start + s as int, self.start + e as int) =~= self@.subrange(s as int, e as int));
        }
        r
    }

    /// A sub-range of the slice interpreted as text; fails with a decode
    /// error exactly when the bytes are not valid UTF-8.
    pub fn slice_str<R: SliceRange>(&self, range: R) -> (r: Result<&str, DecodeFailed>)
        requires
            self.wf(),
            range_in_bounds(&range, self@.len() as int),
        ensures
            r is Ok <==> vstd::utf8::valid_utf8(self@.subrange(range.spec_start(self@.len() as int), range.spec_end(self@.len() as int))),
            r matches Ok(t) ==> t.spec_bytes() == self@.subrange(range.spec_start(self@.len() as int), range.spec_end(self@.len() as int)),
    {
        let n = self.end - self.start;
        let (s, e) = get_range(&range, n);
        proof {
            assert(self.raw@.subrange(self.start + s as int, self.start + e as int) =~= self@.subrange(s as int, e as int));
        }
        match utf8_from(self.raw.slice(self.start + s, self.start + e)) {
            Some(t) => Ok(t),
            None => Err(DecodeFailed),
        }
    }

    /// True exactly when both slices reference the identical storage block:
    /// their markers are one allocation (identity of storage, not equality of
    /// content). Slices of independently created blocks, a standalone slice
    /// against any earlier one, or slices on the two sides of a growth event,
    /// all get false. When it is true the generation tags agree; tags that
    /// differ make it false.
    pub fn ptr_eq(&self, other: &Self) -> (r: bool)
        ensures
            r ==> self.spec_block() == other.spec_block(),
    {
        same_handle(&self.block, &other.block)
    }

    /// True exactly when the two slices are contiguous views of the identical
    /// block: merging them is then possible. It is true only for mergeable
    /// pairs, and false whenever the ranges are not adjacent; adjacency alone
    /// does not make it true, the block must be the same one.
    pub fn can_merge(&self, other: &Self) -> (r: bool)
        ensures
            r ==> self.mergeable(other),
            self.spec_end() != other.spec_start() ==> !r,
    {
        self.ptr_eq(other) && self.end == other.start
    }

    /// Extends this slice by an adjacent one. Succeeds exactly when the two
    /// slices are contiguous views of the identical block (what `can_merge`
    /// answers); the content then becomes the concatenation of the two. On
    /// failure, returns a merge error and leaves this slice unchanged; a pair
    /// that is not mergeable always fails.
    pub fn try_merge(&mut self, other: &Self) -> (r: Result<(), MergeFailed>)
        requires
            old(self).wf(),
            other.wf(),
        ensures
            final(self).wf(),
            r is Ok ==> old(self).mergeable(other),
            !old(self).mergeable(other) ==> r is Err,
            r is Ok ==> final(self)@ == old(self)@ + other@,
            r is Ok ==> final(self).spec_start() == old(self).spec_start(),
            r is Ok ==> final(self).spec_end() == other.spec_end(),
            r is Ok ==> final(self).spec_block() == old(self).spec_block(),
            r is Err ==> *final(self) == *old(self),
    {
        if self.can_merge(other) {
            let ghost old_view = self@;
            if same_handle(&self.raw, &other.raw) {
                // The two views read one shared handle: extending the end
                // offset merges in place, no byte moves.
                self.end = other.end;
            } else {
                // Distinct handles onto the block: rebuild the committed
                // prefix up to the joint end under one handle.
                let mut data = vstd::slice::slice_to_vec(self.raw.slice(0, self.end));
                let mut tail = vstd::slice::slice_to_vec(other.raw.slice(other.start, other.end));
                data.append(&mut tail);
                self.raw = Arc::new(RawBytes::from_vec(data));
                self.end = other.end;
            }
            proof {
                assert(self.raw@.subrange(self.start as int, self.end as int) =~= old_view + other@);
            }
            Ok(())
        } else {
            Err(MergeFailed)
        }
    }

    /// Byte-content equality: two slices with the same bytes compare equal,
    /// whichever blocks they were cut from.
    pub fn content_eq(&self, other: &Self) -> (r: bool)
        requires
            self.wf(),
            other.wf(),
        ensures
            r == (self@ == other@),
    {
        bytes_equal(self.as_bytes(), other.as_bytes())
    }
}

/// True exactly when the two byte strings are equal.
fn bytes_equal(a: &[u8], b: &[u8]) -> (r: bool)
    ensures
        r == (a@ == b@),
{
    let n = a.len();
    if n != b.len() {
        return false;
    }
    let mut i: usize = 0;
    while i < n
        invariant
            i <= n,
            n == a@.len(),
            n == b@.len(),
            forall|j: int| 0 <= j < i ==> a@[j] == b@[j],
        decreases n - i,
    {
        if *vstd::slice::slice_index_get(a, i) != *vstd::slice::slice_index_get(b, i) {
            return false;
        }
        i = i + 1;
    }
    proof {
        assert(a@ =~= b@);
    }
    true
}

impl Clone for BytesSlice {
    /// A clone is the very same view: same block identity, same offsets,
    /// same bytes; only the block's reference count moves.
    fn clone(&self) -> (r: Self)
        ensures
            r == *self,
    {
        BytesSlice { raw: self.raw.clone(), block: self.block.clone(), start: self.start, end: self.end }
    }
}

impl Clone for AppendOnlyBytes {
    /// A clone copies the committed bytes into a fresh block of its own, of
    /// the same capacity; it shares no storage with the buffer it was cloned
    /// from, and slices of the two never reference the same block.
    fn clone(&self) -> (r: Self)
        ensures
            r@ == self@,
            self.wf() ==> r.wf(),
            self.wf() ==> r.spec_capacity() == self.spec_capacity(),
    {
        let n = self.raw.len();
        let data = vstd::slice::slice_to_vec(self.raw.slice(0, n));
        let mut raw = RawBytes::from_vec(data);
        let capacity = self.raw.capacity();
        if capacity > n {
            raw.grow(capacity);
        }
        proof {
            assert(self@.subrange(0, self@.len() as int) == self@);
        }
        AppendOnlyBytes { raw, block: Arc::new(*self.block) }
    }
}

/// Committed bytes after pushing the given pieces, one after the other, onto
/// a buffer holding `pre`: each push appends its piece, as the ensures of
/// `push`, `push_slice` and `push_str` state.
pub open spec fn content_after_pushes(pre: Seq<u8>, pieces: Seq<Seq<u8>>) -> Seq<u8>
    decreases pieces.len(),
{
    if pieces.len() == 0 {
        pre
    } else {
        content_after_pushes(pre + pieces.first(), pieces.drop_first())
    }
}

/// Law: appends accumulate in order. After any sequence of pushes, the
/// committed bytes are the bytes already there followed by the pushed pieces,
/// concatenated in order; in particular the committed length is the sum of
/// the lengths of all the pieces pushed so far.
pub proof fn lemma_append_monotonic(pre: Seq<u8>, pieces: Seq<Seq<u8>>)
    ensures
        content_after_pushes(pre, pieces) == pre + pieces.flatten(),
    decreases pieces.len(),
{
    if pieces.len() == 0 {
        assert(content_after_pushes(pre, pieces) =~= pre + pieces.flatten());
    } else {
        lemma_append_monotonic(pre + pieces.first(), pieces.drop_first());
        assert((pre + pieces.first()) + pieces.drop_first().flatten() =~= pre + pieces.flatten());
    }
}

/// Law: slice content is stable under growth. A slice cut over `[start, end)`
/// of the committed bytes `pre` holds `pre.subrange(start, end)`; after any
/// further appends the buffer holds `pre + added`, and the same window of it
/// is still exactly the slice's bytes. Committed bytes, once exposed through
/// a slice, are never disturbed by later pushes.
pub proof fn lemma_slice_stability(pre: Seq<u8>, added: Seq<u8>, start: int, end: int)
    requires
        0 <= start <= end <= pre.len(),
    ensures
        (pre + added).subrange(start, end) == pre.subrange(start, end),
{
    assert((pre + added).subrange(start, end) =~= pre.subrange(start, end));
}

/// Law: slices never merge across a growth boundary. A slice cut before a
/// growth event carries a tag strictly below the buffer's current one (growth
/// increments the tag, so earlier tags stay behind), and a slice cut after it
/// carries the current tag: the pair is not mergeable in either order, so by
/// the contracts of `can_merge` and `try_merge` no merge of the two can
/// succeed.
pub proof fn lemma_growth_separates_blocks(
    before: BytesSlice,
    buf: AppendOnlyBytes,
    after: BytesSlice,
)
    requires
        before.spec_block() < buf.spec_block(),
        after.spec_block() == buf.spec_block(),
    ensures
        !before.mergeable(&after),
        !after.mergeable(&before),
{
}

impl Default for AppendOnlyBytes {
    /// The default buffer is empty, like `new()`.
    fn default() -> (r: Self)
        ensures
            r.wf(),
            r@ == Seq::<u8>::empty(),
            r.spec_capacity() == 0,
    {
        Self::new()
    }
}

} // verus!
