//! Little-endian integers and the tiered length header that precedes a
//! variable-length payload.
//!
//! | value                      | header                              |
//! |----------------------------|-------------------------------------|
//! | `v < 251`                  | the byte `v`                        |
//! | `251 <= v < 65 536`        | `0xFC`, then 2 bytes little-endian  |
//! | `65 536 <= v < 16 777 216` | `0xFD`, then 3 bytes little-endian  |
//! | otherwise                  | `0xFE`, then 8 bytes little-endian  |
//!
//! The marker `0xFF` is reserved.

use crate::error::CodecError;
use crate::raw::{
    bytes_as_slice, bytes_len, bytes_put_slice, bytes_put_u16_le, bytes_put_u64_le, bytes_put_u8,
    bytes_view,
};
use bytes::BytesMut;
use vstd::prelude::*;
use vstd::slice::*;

verus! {

/// `256` to the power `width`.
pub open spec fn pow256(width: nat) -> nat
    decreases width,
{
    if width == 0 {
        1
    } else {
        256 * pow256((width - 1) as nat)
    }
}

/// The `width` low bytes of `v`, least significant first.
pub open spec fn le_bytes(v: nat, width: nat) -> Seq<u8>
    decreases width,
{
    if width == 0 {
        Seq::<u8>::empty()
    } else {
        seq![(v % 256) as u8] + le_bytes(v / 256, (width - 1) as nat)
    }
}

/// The number that a run of bytes spells, least significant byte first.
pub open spec fn le_value(s: Seq<u8>) -> nat
    decreases s.len(),
{
    if s.len() == 0 {
        0
    } else {
        (s[0] as nat) + 256 * le_value(s.drop_first())
    }
}

/// The length of a little-endian rendering is the width asked for.
pub proof fn lemma_le_bytes_len(v: nat, width: nat)
    ensures
        le_bytes(v, width).len() == width,
    decreases width,
{
    if width > 0 {
        lemma_le_bytes_len(v / 256, (width - 1) as nat);
    }
}

/// Reading back what was rendered gives the number again, as long as the
/// number fits in the width.
pub proof fn lemma_le_round_trip(v: nat, width: nat)
    requires
        v < pow256(width),
    ensures
        le_value(le_bytes(v, width)) == v,
    decreases width,
{
    if width > 0 {
        let rest = le_bytes(v / 256, (width - 1) as nat);
        lemma_le_round_trip(v / 256, (width - 1) as nat);
        assert(le_bytes(v, width).drop_first() =~= rest);
    }
}

/// The powers of `256` that the codec uses.
pub proof fn lemma_pow256_values()
    ensures
        pow256(0) == 1,
        pow256(1) == 0x100,
        pow256(2) == 0x1_0000,
        pow256(3) == 0x100_0000,
        pow256(4) == 0x1_0000_0000,
        pow256(8) == 0x1_0000_0000_0000_0000,
{
    reveal_with_fuel(pow256, 10);
}

/// Reads `width` bytes at `start` as a little-endian number.
pub fn read_le(bytes: &[u8], start: usize, width: usize) -> (v: u64)
    requires
        width <= 8,
        start + width <= bytes@.len(),
    ensures
        v == le_value(bytes@.subrange(start as int, start + width)),
        v < pow256(width as nat),
{
    let total: usize = bytes.len();
    let mut v: u64 = 0;
    let mut i: usize = width;
    proof {
        lemma_pow256_values();
    }
    while i > 0
        invariant
            i <= width <= 8,
            start + width <= bytes@.len(),
            total == bytes@.len(),
            v == le_value(bytes@.subrange(start + i, start + width)),
            v < pow256((width - i) as nat),
            pow256((width - i) as nat) <= pow256(8),
            pow256(8) == 0x1_0000_0000_0000_0000,
        decreases i,
    {
        let ghost tail = bytes@.subrange(start + i, start + width);
        i = i - 1;
        let b: u8 = bytes[start + i];
        proof {
            let run = bytes@.subrange(start + i, start + width);
            assert(run.drop_first() =~= tail);
            assert(run[0] == b);
            assert(pow256((width - i) as nat) == 256 * pow256((width - i - 1) as nat));
            lemma_pow256_monotone((width - i) as nat, 8);
        }
        v = v * 256 + (b as u64);
    }
    v
}

/// A larger exponent gives a power at least as large.
pub proof fn lemma_pow256_monotone(a: nat, b: nat)
    requires
        a <= b,
    ensures
        pow256(a) <= pow256(b),
        pow256(a) >= 1,
    decreases b,
{
    if a < b {
        lemma_pow256_monotone(a, (b - 1) as nat);
    } else if a > 0 {
        lemma_pow256_monotone((a - 1) as nat, (a - 1) as nat);
    }
}

/// The header that announces a payload of `v` bytes.
pub open spec fn lenenc(v: u64) -> Seq<u8> {
    if v < 251 {
        seq![v as u8]
    } else if v < 65_536 {
        seq![0xFCu8] + le_bytes(v as nat, 2)
    } else if v < 16_777_216 {
        seq![0xFDu8] + le_bytes(v as nat, 3)
    } else {
        seq![0xFEu8] + le_bytes(v as nat, 8)
    }
}

/// The number of bytes of the header that announces `v`.
pub open spec fn lenenc_len(v: u64) -> nat {
    if v < 251 {
        1
    } else if v < 65_536 {
        3
    } else if v < 16_777_216 {
        4
    } else {
        9
    }
}

/// The number of bytes of a header, told from its first byte.
pub open spec fn header_len(first: u8) -> nat {
    if first < 0xFC {
        1
    } else if first == 0xFC {
        3
    } else if first == 0xFD {
        4
    } else {
        9
    }
}

/// What a header at `offset` says: the value and the header's own length.
/// A first byte below `0xFC` is the value itself. The reserved marker is
/// refused wherever it stands; a header that the bytes cut short is an
/// unexpected end.
pub open spec fn decode_lenenc(bytes: Seq<u8>, offset: int) -> Result<(u64, usize), CodecError> {
    if offset < 0 || offset >= bytes.len() {
        Err(CodecError::UnexpectedEnd)
    } else if bytes[offset] == 0xFF {
        Err(CodecError::InvalidEncoding)
    } else if offset + header_len(bytes[offset]) > bytes.len() {
        Err(CodecError::UnexpectedEnd)
    } else if bytes[offset] < 0xFC {
        Ok((bytes[offset] as u64, 1usize))
    } else {
        Ok(
            (
                le_value(bytes.subrange(offset + 1, offset + header_len(bytes[offset]))) as u64,
                header_len(bytes[offset]) as usize,
            ),
        )
    }
}

/// A header has the length that its value calls for, and never starts with
/// the reserved marker.
pub proof fn lemma_lenenc_shape(v: u64)
    ensures
        lenenc(v).len() == lenenc_len(v),
        lenenc(v)[0] != 0xFF,
        header_len(lenenc(v)[0]) == lenenc_len(v),
{
    lemma_le_bytes_len(v as nat, 2);
    lemma_le_bytes_len(v as nat, 3);
    lemma_le_bytes_len(v as nat, 8);
}

/// Decoding a header where it was written gives back its value and its
/// length, whatever precedes and follows it.
pub proof fn lemma_lenenc_round_trip(v: u64, before: Seq<u8>, after: Seq<u8>)
    ensures
        decode_lenenc(before + lenenc(v) + after, before.len() as int) == Ok::<
            (u64, usize),
            CodecError,
        >((v, lenenc_len(v) as usize)),
{
    lemma_lenenc_shape(v);
    lemma_pow256_values();
    let bytes = before + lenenc(v) + after;
    let offset = before.len() as int;
    assert(bytes[offset] == lenenc(v)[0]);
    if v >= 251 {
        let w: nat = (lenenc_len(v) - 1) as nat;
        lemma_le_bytes_len(v as nat, w);
        assert(bytes.subrange(offset + 1, offset + 1 + w) =~= le_bytes(v as nat, w));
        lemma_le_round_trip(v as nat, w);
    }
}

/// Decodes the header at `offset`.
pub fn decode_lenenc_int(bytes: &[u8], offset: usize) -> (r: Result<(u64, usize), CodecError>)
    ensures
        r == decode_lenenc(bytes@, offset as int),
{
    if offset >= bytes.len() {
        return Err(CodecError::UnexpectedEnd);
    }
    let flag: u8 = bytes[offset];
    if flag == 0xFF {
        return Err(CodecError::InvalidEncoding);
    }
    if flag < 0xFC {
        return Ok((flag as u64, 1));
    }
    let size: usize = if flag == 0xFC {
        3
    } else if flag == 0xFD {
        4
    } else {
        9
    };
    if size > bytes.len() - offset {
        return Err(CodecError::UnexpectedEnd);
    }
    let v = read_le(bytes, offset + 1, size - 1);
    Ok((v, size))
}

/// Decodes the header at `offset` of the storage.
pub fn read_lenenc_int(buf: &BytesMut, offset: usize) -> (r: Result<(u64, usize), CodecError>)
    ensures
        r == decode_lenenc(bytes_view(*buf), offset as int),
{
    decode_lenenc_int(bytes_as_slice(buf), offset)
}

/// The number of bytes of the header that announces `x`.
pub fn lenenc_size(x: u64) -> (n: usize)
    ensures
        n == lenenc_len(x),
{
    if x < 251 {
        1
    } else if x < 65_536 {
        3
    } else if x < 16_777_216 {
        4
    } else {
        9
    }
}

/// Appends the header that announces `x` where the storage has room for it,
/// and returns the header's length; leaves the storage as it is and returns
/// nothing where the header would take it past what one allocation can hold.
pub fn try_write_lenenc_int(x: u64, buf: &mut BytesMut) -> (r: Option<usize>)
    ensures
        match r {
            Some(n) => {
                &&& bytes_view(*old(buf)).len() + lenenc_len(x) <= isize::MAX
                &&& bytes_view(*final(buf)) == bytes_view(*old(buf)) + lenenc(x)
                &&& n == lenenc_len(x)
            },
            None => {
                &&& bytes_view(*old(buf)).len() + lenenc_len(x) > isize::MAX
                &&& bytes_view(*final(buf)) == bytes_view(*old(buf))
            },
        },
{
    let held: usize = bytes_len(buf);
    let size: usize = lenenc_size(x);
    let limit: usize = isize::MAX as usize;
    if held > limit - size {
        None
    } else {
        Some(write_lenenc_int(x, buf))
    }
}

/// Appends the header that announces `x` and returns the header's length.
pub fn write_lenenc_int(x: u64, buf: &mut BytesMut) -> (n: usize)
    requires
        bytes_view(*old(buf)).len() + lenenc_len(x) <= isize::MAX,
    ensures
        bytes_view(*final(buf)) == bytes_view(*old(buf)) + lenenc(x),
        n == lenenc_len(x),
{
    proof {
        lemma_le_bytes_len(x as nat, 2);
        lemma_le_bytes_len(x as nat, 3);
        lemma_le_bytes_len(x as nat, 8);
        lemma_pow256_values();
    }
    let ghost before = bytes_view(*buf);
    if x < 251 {
        bytes_put_u8(buf, x as u8);
        assert(before.push(x as u8) =~= before + lenenc(x));
        1
    } else if x < 65_536 {
        bytes_put_u8(buf, 0xFC);
        bytes_put_u16_le(buf, x as u16);
        assert(before.push(0xFCu8) + le_bytes(x as nat, 2) =~= before + lenenc(x));
        3
    } else if x < 16_777_216 {
        bytes_put_u8(buf, 0xFD);
        let low: u32 = x as u32;
        let three: [u8; 3] = [(low % 256) as u8, (low / 256 % 256) as u8, (low / 65_536) as u8];
        bytes_put_slice(buf, three.as_slice());
        proof {
            reveal_with_fuel(le_bytes, 4);
            assert(three@ =~= le_bytes(x as nat, 3));
            assert(before.push(0xFDu8) + three@ =~= before + lenenc(x));
        }
        4
    } else {
        bytes_put_u8(buf, 0xFE);
        bytes_put_u64_le(buf, x);
        assert(before.push(0xFEu8) + le_bytes(x as nat, 8) =~= before + lenenc(x));
        9
    }
}

} // verus!
