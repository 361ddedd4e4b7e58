//! The byte storage behind a buffer: `bytes::BytesMut`, reached through a
//! small set of functions whose contracts are taken on trust.

use bytes::BufMut;
use bytes::BytesMut;
use crate::encoding::le_bytes;
use vstd::prelude::*;

verus! {

/// `bytes::BytesMut`, opaque to the verifier.
#[verifier::external_type_specification]
#[verifier::external_body]
pub struct ExBytesMut(BytesMut);

/// The bytes that a `BytesMut` holds, first to last.
pub uninterp spec fn bytes_view(b: BytesMut) -> Seq<u8>;

/// `BytesMut::with_capacity`: the new storage holds no bytes, whatever the
/// capacity asked for. The call panics when the capacity is more than one
/// allocation can hold, which the bound leaves out.
#[verifier::external_body]
pub(crate) fn bytes_with_capacity(capacity: usize) -> (b: BytesMut)
    requires
        capacity <= isize::MAX,
    ensures
        bytes_view(b) == Seq::<u8>::empty(),
{
    BytesMut::with_capacity(capacity)
}

/// `Clone::clone` of `BytesMut`: storage of its own with the same bytes.
pub assume_specification[ <BytesMut as Clone>::clone ](b: &BytesMut) -> (r: BytesMut)
    ensures
        bytes_view(r) == bytes_view(*b),
;

/// `BytesMut::len`: the number of bytes held.
#[verifier::external_body]
pub(crate) fn bytes_len(b: &BytesMut) -> (n: usize)
    ensures
        n == bytes_view(*b).len(),
{
    b.len()
}

/// `AsRef<[u8]>::as_ref` of `BytesMut`: a shared slice over every byte held.
#[verifier::external_body]
pub(crate) fn bytes_as_slice(b: &BytesMut) -> (s: &[u8])
    ensures
        s@ == bytes_view(*b),
{
    b.as_ref()
}

/// `AsMut<[u8]>::as_mut` of `BytesMut`: a mutable slice over every byte held.
/// What is stored through the slice is what the storage holds afterwards,
/// and a slice cannot change the number of bytes held.
#[verifier::external_body]
pub(crate) fn bytes_as_mut_slice(b: &mut BytesMut) -> (s: &mut [u8])
    ensures
        s@ == bytes_view(*old(b)),
        bytes_view(*final(b)) == final(s)@,
        bytes_view(*final(b)).len() == bytes_view(*old(b)).len(),
{
    b.as_mut()
}

/// `BufMut::put_slice` of `BytesMut`: appends the bytes of `src`. The call
/// panics when the capacity that it reserves overflows; the bound keeps the
/// bytes held and the bytes added within what one allocation can hold. The
/// other `put` functions go through this one and share the bound.
#[verifier::external_body]
pub(crate) fn bytes_put_slice(b: &mut BytesMut, src: &[u8])
    requires
        bytes_view(*old(b)).len() + src@.len() <= isize::MAX,
    ensures
        bytes_view(*final(b)) == bytes_view(*old(b)) + src@,
{
    b.put_slice(src)
}

/// `BufMut::put_u8` of `BytesMut`: appends one byte.
#[verifier::external_body]
pub(crate) fn bytes_put_u8(b: &mut BytesMut, n: u8)
    requires
        bytes_view(*old(b)).len() + 1 <= isize::MAX,
    ensures
        bytes_view(*final(b)) == bytes_view(*old(b)).push(n),
{
    b.put_u8(n)
}

/// `BufMut::put_i8` of `BytesMut`: appends the byte with the same bits.
#[verifier::external_body]
pub(crate) fn bytes_put_i8(b: &mut BytesMut, n: i8)
    requires
        bytes_view(*old(b)).len() + 1 <= isize::MAX,
    ensures
        bytes_view(*final(b)) == bytes_view(*old(b)).push(n as u8),
{
    b.put_i8(n)
}

/// `BufMut::put_u16_le` of `BytesMut`: appends the two bytes of `n`, least
/// significant first.
#[verifier::external_body]
pub(crate) fn bytes_put_u16_le(b: &mut BytesMut, n: u16)
    requires
        bytes_view(*old(b)).len() + 2 <= isize::MAX,
    ensures
        bytes_view(*final(b)) == bytes_view(*old(b)) + le_bytes(n as nat, 2),
{
    b.put_u16_le(n)
}

/// `BufMut::put_i16_le` of `BytesMut`: appends the two bytes of the two's
/// complement of `n`, least significant first.
#[verifier::external_body]
pub(crate) fn bytes_put_i16_le(b: &mut BytesMut, n: i16)
    requires
        bytes_view(*old(b)).len() + 2 <= isize::MAX,
    ensures
        bytes_view(*final(b)) == bytes_view(*old(b)) + le_bytes(n as u16 as nat, 2),
{
    b.put_i16_le(n)
}

/// `BufMut::put_u32_le` of `BytesMut`: appends the four bytes of `n`, least
/// significant first.
#[verifier::external_body]
pub(crate) fn bytes_put_u32_le(b: &mut BytesMut, n: u32)
    requires
        bytes_view(*old(b)).len() + 4 <= isize::MAX,
    ensures
        bytes_view(*final(b)) == bytes_view(*old(b)) + le_bytes(n as nat, 4),
{
    b.put_u32_le(n)
}

/// `BufMut::put_i32_le` of `BytesMut`: appends the four bytes of the two's
/// complement of `n`, least significant first.
#[verifier::external_body]
pub(crate) fn bytes_put_i32_le(b: &mut BytesMut, n: i32)
    requires
        bytes_view(*old(b)).len() + 4 <= isize::MAX,
    ensures
        bytes_view(*final(b)) == bytes_view(*old(b)) + le_bytes(n as u32 as nat, 4),
{
    b.put_i32_le(n)
}

/// `BufMut::put_u64_le` of `BytesMut`: appends the eight bytes of `n`, least
/// significant first.
#[verifier::external_body]
pub(crate) fn bytes_put_u64_le(b: &mut BytesMut, n: u64)
    requires
        bytes_view(*old(b)).len() + 8 <= isize::MAX,
    ensures
        bytes_view(*final(b)) == bytes_view(*old(b)) + le_bytes(n as nat, 8),
{
    b.put_u64_le(n)
}

/// `BufMut::put_i64_le` of `BytesMut`: appends the eight bytes of the two's
/// complement of `n`, least significant first.
#[verifier::external_body]
pub(crate) fn bytes_put_i64_le(b: &mut BytesMut, n: i64)
    requires
        bytes_view(*old(b)).len() + 8 <= isize::MAX,
    ensures
        bytes_view(*final(b)) == bytes_view(*old(b)) + le_bytes(n as u64 as nat, 8),
{
    b.put_i64_le(n)
}

} // verus!
