use vstd::prelude::*;

use crate::BytesSlice;

verus! {

/// Encodes a slice for the serialization adapter: the encoded form is
/// exactly the slice's bytes. A binary serializer writes them as one byte
/// string; a human-readable serializer writes them as a sequence of byte
/// values; either way this byte sequence is what is carried.
pub fn encode_slice(slice: &BytesSlice) -> (r: Vec<u8>)
    requires
        slice.wf(),
    ensures
        r@ == slice@,
{
    vstd::slice::slice_to_vec(slice.as_bytes())
}

/// Decodes an encoded byte sequence back into a standalone slice over a
/// fresh private block: the adapter never aliases the storage the bytes came
/// from, and `ptr_eq` between the decoded slice and any earlier one is
/// false. Decoding what `encode_slice` produced reproduces the content.
pub fn decode_slice(bytes: &[u8]) -> (r: BytesSlice)
    ensures
        r.wf(),
        r@ == bytes@,
        r.spec_start() == 0,
        r.spec_end() == bytes@.len(),
{
    BytesSlice::from_bytes(bytes)
}

} // verus!
