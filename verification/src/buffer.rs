use vstd::prelude::*;

verus! {

#[verifier::external_type_specification]
#[verifier::external_body]
pub struct ExBytes(bytes::Bytes);

/// The byte contents of a shared buffer.
pub uninterp spec fn bytes_view(b: bytes::Bytes) -> Seq<u8>;

/// Relies on bytes::Bytes::new: an empty buffer.
#[verifier::external_body]
pub(crate) fn bytes_new() -> (r: bytes::Bytes)
    ensures
        bytes_view(r) == Seq::<u8>::empty(),
{
    bytes::Bytes::new()
}

/// Relies on From<Vec<u8>> for bytes::Bytes: takes over the vector's bytes
/// unchanged.
#[verifier::external_body]
pub(crate) fn bytes_from_vec(v: Vec<u8>) -> (r: bytes::Bytes)
    ensures
        bytes_view(r) == v@,
{
    bytes::Bytes::from(v)
}

/// Relies on bytes::Bytes::len: the number of bytes in the buffer.
#[verifier::external_body]
pub(crate) fn bytes_len(b: &bytes::Bytes) -> (r: usize)
    ensures
        r == bytes_view(*b).len(),
{
    b.len()
}

/// Relies on Clone for bytes::Bytes: a cheap clone that shares the same
/// underlying bytes instead of copying them.
#[verifier::external_body]
pub(crate) fn bytes_clone(b: &bytes::Bytes) -> (r: bytes::Bytes)
    ensures
        bytes_view(r) == bytes_view(*b),
{
    b.clone()
}

} // verus!
