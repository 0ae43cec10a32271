use vstd::prelude::*;

verus! {

/// A storage block: a heap-allocated byte region with a fixed capacity.
///
/// The committed bytes sit at the front of the region; the append buffer is
/// the only party that ever writes, and it only ever writes at the end of the
/// committed prefix. Bytes that have been written are never overwritten, so a
/// shared handle to a block can be read freely while the buffer keeps
/// appending behind it.
#[derive(Debug)]
pub(crate) struct RawBytes {
    data: Vec<u8>,
    capacity: usize,
}

impl View for RawBytes {
    type V = Seq<u8>;

    closed spec fn view(&self) -> Seq<u8> {
        self.data@
    }
}

impl RawBytes {
    /// The committed bytes never exceed the block's fixed capacity.
    pub(crate) open spec fn wf(&self) -> bool {
        self@.len() <= self.spec_capacity()
    }

    /// Capacity chosen when the block was created.
    pub(crate) closed spec fn spec_capacity(&self) -> usize {
        self.capacity
    }

    /// A fresh block of the given capacity with no committed bytes.
    pub(crate) fn with_capacity(capacity: usize) -> (r: Self)
        ensures
            r.wf(),
            r@ == Seq::<u8>::empty(),
            r.spec_capacity() == capacity,
    {
        RawBytes { data: Vec::new(), capacity }
    }

    /// A block whose committed region is exactly the given bytes, with
    /// capacity sized to fit them.
    pub(crate) fn from_vec(data: Vec<u8>) -> (r: Self)
        ensures
            r.wf(),
            r@ == data@,
            r.spec_capacity() == data@.len(),
    {
        let capacity = data.len();
        RawBytes { data, capacity }
    }

    pub(crate) fn capacity(&self) -> (r: usize)
        ensures
            r == self.spec_capacity(),
    {
        self.capacity
    }

    /// Number of committed bytes.
    pub(crate) fn len(&self) -> (r: usize)
        ensures
            r == self@.len(),
    {
        self.data.len()
    }

    /// Appends one byte at the end of the committed region.
    pub(crate) fn push(&mut self, byte: u8)
        requires
            old(self).wf(),
            old(self)@.len() < old(self).spec_capacity(),
        ensures
            final(self).wf(),
            final(self)@ == old(self)@.push(byte),
            final(self).spec_capacity() == old(self).spec_capacity(),
    {
        self.data.push(byte);
    }

    /// Replaces this block by a larger successor holding the same committed
    /// bytes. The caller (the append buffer) accounts for the change of
    /// identity by moving to a new generation tag.
    pub(crate) fn grow(&mut self, new_capacity: usize)
        requires
            old(self).wf(),
            new_capacity >= old(self).spec_capacity(),
        ensures
            final(self).wf(),
            final(self)@ == old(self)@,
            final(self).spec_capacity() == new_capacity,
    {
        self.capacity = new_capacity;
    }

    /// The committed byte at the given position.
    pub(crate) fn get(&self, index: usize) -> (r: u8)
        requires
            index < self@.len(),
        ensures
            r == self@[index as int],
    {
        *vstd::slice::slice_index_get(self.data.as_slice(), index)
    }

    /// Read-only window onto committed bytes, without copying.
    pub(crate) fn slice(&self, start: usize, end: usize) -> (r: &[u8])
        requires
            start <= end,
            end <= self@.len(),
        ensures
            r@ == self@.subrange(start as int, end as int),
    {
        vstd::slice::slice_subrange(self.data.as_slice(), start, end)
    }
}

} // verus!
