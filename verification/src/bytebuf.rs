//! The byte buffer that the framing codec reads from and writes into:
//! [`bytes::BytesMut`], seen by the verifier as an opaque buffer whose
//! contents are named by [`buf_contents`]. Each wrapper states, over that
//! name, what one `bytes` operation does to the contents.

use vstd::prelude::*;

use bytes::Buf;
use bytes::BufMut;
use bytes::BytesMut;

verus! {

#[verifier::external_type_specification]
#[verifier::external_body]
pub struct ExBytesMut(BytesMut);

/// The bytes a `BytesMut` currently holds, front to back.
pub uninterp spec fn buf_contents(b: BytesMut) -> Seq<u8>;

/// Relies on `BytesMut::len`: the number of bytes in the buffer.
#[verifier::external_body]
pub(crate) fn buf_len(b: &BytesMut) -> (n: usize)
    ensures
        n == buf_contents(*b).len(),
{
    b.len()
}

/// Relies on `BytesMut`'s `Deref<Target = [u8]>`: the byte at index `i`.
#[verifier::external_body]
pub(crate) fn buf_byte(b: &BytesMut, i: usize) -> (r: u8)
    requires
        i < buf_contents(*b).len(),
    ensures
        r == buf_contents(*b)[i as int],
{
    b[i]
}

/// Relies on `BufMut::put_u8` for `BytesMut`: appends the byte, growing the
/// buffer as needed.
#[verifier::external_body]
pub(crate) fn buf_put_u8(b: &mut BytesMut, v: u8)
    requires
        buf_contents(*old(b)).len() + 1 <= usize::MAX / 2,
    ensures
        buf_contents(*final(b)) == buf_contents(*old(b)).push(v),
{
    b.put_u8(v);
}

/// Relies on `BufMut::put_u16` for `BytesMut`: appends the two bytes of the
/// value in big-endian order.
#[verifier::external_body]
pub(crate) fn buf_put_u16(b: &mut BytesMut, v: u16)
    requires
        buf_contents(*old(b)).len() + 2 <= usize::MAX / 2,
    ensures
        buf_contents(*final(b)) == buf_contents(*old(b)) + crate::wire::be16_bytes(v),
{
    b.put_u16(v);
}

/// Relies on `BufMut::put_u32` for `BytesMut`: appends the four bytes of the
/// value in big-endian order.
#[verifier::external_body]
pub(crate) fn buf_put_u32(b: &mut BytesMut, v: u32)
    requires
        buf_contents(*old(b)).len() + 4 <= usize::MAX / 2,
    ensures
        buf_contents(*final(b)) == buf_contents(*old(b)) + crate::wire::be32_bytes(v),
{
    b.put_u32(v);
}

/// Relies on `BytesMut::extend_from_slice`: appends the slice's bytes.
#[verifier::external_body]
pub(crate) fn buf_put_slice(b: &mut BytesMut, s: &[u8])
    requires
        buf_contents(*old(b)).len() + s@.len() <= usize::MAX / 2,
    ensures
        buf_contents(*final(b)) == buf_contents(*old(b)) + s@,
{
    b.extend_from_slice(s);
}

/// Relies on `Buf::advance` for `BytesMut`: discards the first `n` bytes.
#[verifier::external_body]
pub(crate) fn buf_advance(b: &mut BytesMut, n: usize)
    requires
        n <= buf_contents(*old(b)).len(),
    ensures
        buf_contents(*final(b)) == buf_contents(*old(b)).skip(n as int),
{
    b.advance(n);
}

/// Relies on slicing a `BytesMut` through `Deref<Target = [u8]>` and
/// `<[u8]>::to_vec`: copies the bytes of the range out of the buffer.
#[verifier::external_body]
pub(crate) fn buf_copy_range(b: &BytesMut, from: usize, to: usize) -> (r: Vec<u8>)
    requires
        from <= to <= buf_contents(*b).len(),
    ensures
        r@ == buf_contents(*b).subrange(from as int, to as int),
{
    b[from..to].to_vec()
}

} // verus!
