//! Type tags. A tag is one byte, `[category:4][width_code:4]`: the high
//! nibble names the storage category, the low nibble the width of a scalar.

use vstd::prelude::*;

verus! {

/// The tags of the scalar types, of binary values and of strings.
pub const BOOL: u8 = 0b0000_0000;

pub const I8: u8 = 0b0001_0000;

pub const U8: u8 = 0b0010_0000;

pub const I16: u8 = 0b0011_0001;

pub const U16: u8 = 0b0100_0001;

pub const I32: u8 = 0b0101_0010;

pub const U32: u8 = 0b0111_0010;

pub const I64: u8 = 0b1000_0011;

pub const U64: u8 = 0b1001_0011;

pub const F32: u8 = 0b1010_0010;

pub const F64: u8 = 0b1011_0011;

pub const BINARY: u8 = 0b1100_0000;

pub const STRING: u8 = 0b1100_0001;

/// The width code of a tag: its low four bits.
pub open spec fn width_code(tag: u8) -> u8 {
    tag & 0x0f
}

/// The number of bytes that a scalar with this tag occupies: one byte for
/// width code 0, and `2 << (code - 1)` bytes for any other code.
pub open spec fn width(tag: u8) -> nat {
    if width_code(tag) == 0 {
        1
    } else {
        (2u32 << ((width_code(tag) - 1) as u32)) as nat
    }
}

/// Whether a tag stands for a field whose length travels with its payload.
pub open spec fn is_variable(tag: u8) -> bool {
    tag >= BINARY
}

/// The widths of the scalar tags.
pub proof fn lemma_scalar_widths()
    ensures
        width(BOOL) == 1,
        width(I8) == 1,
        width(U8) == 1,
        width(I16) == 2,
        width(U16) == 2,
        width(I32) == 4,
        width(U32) == 4,
        width(I64) == 8,
        width(U64) == 8,
        width(F32) == 4,
        width(F64) == 8,
{
    assert(0x00u8 & 0x0f == 0 && 0x10u8 & 0x0f == 0 && 0x20u8 & 0x0f == 0) by (bit_vector);
    assert(0x31u8 & 0x0f == 1 && 0x41u8 & 0x0f == 1) by (bit_vector);
    assert(0x52u8 & 0x0f == 2 && 0x72u8 & 0x0f == 2 && 0xa2u8 & 0x0f == 2) by (bit_vector);
    assert(0x83u8 & 0x0f == 3 && 0x93u8 & 0x0f == 3 && 0xb3u8 & 0x0f == 3) by (bit_vector);
    assert(2u32 << 0u32 == 2 && 2u32 << 1u32 == 4 && 2u32 << 2u32 == 8) by (bit_vector);
}

/// A tag's width never exceeds `2 << 14`.
pub proof fn lemma_width_bound(tag: u8)
    ensures
        1 <= width(tag) <= 32768,
        width_code(tag) <= 15,
        width_code(tag) <= 7 ==> width(tag) <= 128,
{
    let c = tag & 0x0f;
    assert(c <= 15) by (bit_vector)
        requires
            c == tag & 0x0f,
    ;
    let s = (c - 1) as u32;
    if c != 0 {
        assert(1 <= (2u32 << s) <= 32768) by (bit_vector)
            requires
                s <= 14,
        ;
        if c <= 7 {
            assert((2u32 << s) <= 128) by (bit_vector)
                requires
                    s <= 6,
            ;
        }
    }
}

/// The byte width of a scalar tag.
pub fn len(data_type_id: u8) -> (n: u8)
    requires
        width_code(data_type_id) <= 7,
    ensures
        n == width(data_type_id),
{
    proof {
        lemma_width_bound(data_type_id);
    }
    let length_mod: u8 = data_type_id & 0b0000_1111;
    if length_mod == 0 {
        1
    } else {
        let wide: u32 = 2u32 << ((length_mod - 1) as u32);
        wide as u8
    }
}

/// The byte width of a tag, for every width code.
pub(crate) fn width_of(tag: u8) -> (n: usize)
    ensures
        n == width(tag),
        1 <= n <= 32768,
{
    proof {
        lemma_width_bound(tag);
    }
    let code: u8 = tag & 0b0000_1111;
    if code == 0 {
        1
    } else {
        let wide: u32 = 2u32 << ((code - 1) as u32);
        wide as usize
    }
}

} // verus!
