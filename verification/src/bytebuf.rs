//! Trusted view of `bytes::BytesMut`, the byte buffer that frames are
//! assembled in. Verified code sees a buffer only through `buf_view`,
//! the sequence of bytes it currently holds, and through the wrappers
//! below.

use vstd::prelude::*;
use bytes::BytesMut;
use bytes::BufMut;

verus! {

#[verifier::external_type_specification]
#[verifier::external_body]
pub struct ExBytesMut(BytesMut);

/// The bytes a buffer currently holds, oldest first.
pub uninterp spec fn buf_view(b: BytesMut) -> Seq<u8>;

/// Relies on bytes::BytesMut::with_capacity: the new buffer has length 0.
#[verifier::external_body]
pub fn buf_with_capacity(capacity: usize) -> (r: BytesMut)
    ensures
        buf_view(r) == Seq::<u8>::empty(),
{
    BytesMut::with_capacity(capacity)
}

/// Relies on bytes::BufMut::put_u8 for BytesMut: appends one byte at the
/// end, growing the buffer as needed. It panics only when no writable
/// capacity can remain at all, which the length bound rules out.
#[verifier::external_body]
pub fn buf_put_u8(b: &mut BytesMut, v: u8)
    requires
        buf_view(*old(b)).len() < 0x8000_0000,
    ensures
        buf_view(*final(b)) == buf_view(*old(b)).push(v),
{
    b.put_u8(v)
}

/// Relies on bytes::BytesMut::len: the number of bytes held.
#[verifier::external_body]
pub fn buf_len(b: &BytesMut) -> (r: usize)
    ensures
        r == buf_view(*b).len(),
{
    b.len()
}

/// Relies on the Deref impl of bytes::BytesMut: a slice of all held bytes.
#[verifier::external_body]
pub fn buf_as_slice(b: &BytesMut) -> (r: &[u8])
    ensures
        r@ == buf_view(*b),
{
    &b[..]
}

/// Relies on the Deref impl of bytes::BytesMut and slice indexing: the
/// byte at the given position.
#[verifier::external_body]
pub fn buf_get(b: &BytesMut, i: usize) -> (r: u8)
    requires
        i < buf_view(*b).len(),
    ensures
        r == buf_view(*b)[i as int],
{
    b[i]
}

} // verus!
