//! The byte queue of a stream, kept in a `bytes::BytesMut`.
//!
//! Verus does not look inside a `BytesMut`. What it holds is named by
//! [`buffer_bytes`], and each method that the library calls is stated here
//! over that name. These statements are believed, not proved.

use bytes::BufMut;
use bytes::BytesMut;
use vstd::prelude::*;

verus! {

#[verifier::external_type_specification]
#[verifier::external_body]
pub struct ExBytesMut(BytesMut);

/// The bytes that a buffer holds, oldest first.
pub uninterp spec fn buffer_bytes(b: BytesMut) -> Seq<u8>;

/// `BytesMut::with_capacity`: a buffer that holds no bytes. The capacity is
/// handed to `Vec::with_capacity`, which panics above `isize::MAX`.
#[verifier::external_body]
pub(crate) fn buffer_with_capacity(capacity: usize) -> (b: BytesMut)
    requires
        capacity <= isize::MAX,
    ensures
        buffer_bytes(b) == Seq::<u8>::empty(),
{
    BytesMut::with_capacity(capacity)
}

/// `BytesMut::len`: the number of bytes held.
#[verifier::external_body]
pub(crate) fn buffer_len(b: &BytesMut) -> (n: usize)
    ensures
        n == buffer_bytes(*b).len(),
{
    b.len()
}

/// `BufMut::put_slice` on a `BytesMut`: the bytes of `data` are appended in
/// order and nothing else changes. It reserves room first, which panics when
/// the new length overflows `usize`.
#[verifier::external_body]
pub(crate) fn buffer_put_slice(b: &mut BytesMut, data: &[u8])
    requires
        buffer_bytes(*old(b)).len() + data@.len() <= usize::MAX,
    ensures
        buffer_bytes(*final(b)) == buffer_bytes(*old(b)) + data@,
{
    b.put_slice(data)
}

/// `BytesMut::split_to`: the first `at` bytes leave the buffer and are handed
/// out, here copied into a `Vec`; the rest stay, in order. It panics when
/// `at` is more than the length.
#[verifier::external_body]
pub(crate) fn buffer_split_to(b: &mut BytesMut, at: usize) -> (head: Vec<u8>)
    requires
        at <= buffer_bytes(*old(b)).len(),
    ensures
        head@ == buffer_bytes(*old(b)).take(at as int),
        buffer_bytes(*final(b)) == buffer_bytes(*old(b)).skip(at as int),
{
    b.split_to(at).to_vec()
}

/// `Deref` of a `BytesMut`: the bytes held, as a slice.
#[verifier::external_body]
pub(crate) fn buffer_as_slice(b: &BytesMut) -> (s: &[u8])
    ensures
        s@ == buffer_bytes(*b),
{
    &b[..]
}

} // verus!
