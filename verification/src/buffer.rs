//! Trusted view of `bytes::BytesMut`, the caller-supplied inbound byte
//! buffer that the decoder inspects and consumes from the front.

use vstd::prelude::*;

verus! {

#[verifier::external_type_specification]
#[verifier::external_body]
pub struct ExBytesMut(bytes::BytesMut);

/// The bytes the buffer currently holds, front to back.
pub uninterp spec fn bm_bytes(buf: bytes::BytesMut) -> Seq<u8>;

/// Relies on `BytesMut::len`: the number of bytes in the buffer.
#[verifier::external_body]
pub(crate) fn bm_len(buf: &bytes::BytesMut) -> (r: usize)
    ensures
        r == bm_bytes(*buf).len(),
{
    buf.len()
}

/// Relies on indexing through `BytesMut`'s `Deref` to `[u8]`: the byte at
/// the given position.
#[verifier::external_body]
pub(crate) fn bm_byte(buf: &bytes::BytesMut, i: usize) -> (r: u8)
    requires
        i < bm_bytes(*buf).len(),
    ensures
        r == bm_bytes(*buf)[i as int],
{
    buf[i]
}

/// Relies on `BytesMut::split_to`: removes the first `n` bytes from the
/// buffer and returns them; the rest stays behind.
#[verifier::external_body]
pub(crate) fn bm_take(buf: &mut bytes::BytesMut, n: usize) -> (r: Vec<u8>)
    requires
        n <= bm_bytes(*old(buf)).len(),
    ensures
        r@ == bm_bytes(*old(buf)).take(n as int),
        bm_bytes(*final(buf)) == bm_bytes(*old(buf)).skip(n as int),
{
    buf.split_to(n).to_vec()
}

} // verus!
