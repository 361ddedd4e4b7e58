//! Where the fields of a record lie in a run of bytes.
//!
//! A record is its fields one after another, with nothing between them. A
//! scalar field takes the bytes that its tag's width calls for; a
//! variable-length field is a length header followed by that many payload
//! bytes.

use crate::encoding::{decode_lenenc, le_value, lenenc};
use vstd::utf8::valid_utf8;
use crate::error::CodecError;
use crate::types::{is_variable, width};
use vstd::prelude::*;

verus! {

/// A variable-length field on the wire: the header that announces the
/// payload's length, then the payload.
pub open spec fn var_field(payload: Seq<u8>) -> Seq<u8> {
    lenenc(payload.len() as u64) + payload
}

/// The payload that the header at `pos` announces: where it starts and how
/// many bytes it has. Fails as the header does, and with an unexpected end
/// when the payload would run past the bytes.
pub open spec fn payload_span(bytes: Seq<u8>, pos: int) -> Result<(int, int), CodecError> {
    match decode_lenenc(bytes, pos) {
        Err(e) => Err(e),
        Ok((v, h)) => if pos + h + v > bytes.len() {
            Err(CodecError::UnexpectedEnd)
        } else {
            Ok((pos + h, v as int))
        },
    }
}

/// The number of bytes that a field with this tag takes when it starts at
/// `pos`.
pub open spec fn field_extent(bytes: Seq<u8>, tag: u8, pos: int) -> Result<int, CodecError> {
    if is_variable(tag) {
        match payload_span(bytes, pos) {
            Err(e) => Err(e),
            Ok((start, n)) => Ok(start + n - pos),
        }
    } else if pos + width(tag) > bytes.len() {
        Err(CodecError::UnexpectedEnd)
    } else {
        Ok(width(tag) as int)
    }
}

/// A forward scan over the first `n` tags: the offset at which each of those
/// fields starts, and the offset just behind the last of them. The scan
/// fails at the first field that fails.
pub open spec fn scan_prefix(bytes: Seq<u8>, tags: Seq<u8>, n: nat) -> Result<
    (Seq<usize>, int),
    CodecError,
>
    decreases n,
{
    if n == 0 || n > tags.len() {
        Ok((Seq::<usize>::empty(), 0int))
    } else {
        match scan_prefix(bytes, tags, (n - 1) as nat) {
            Err(e) => Err(e),
            Ok((offsets, pos)) => match field_extent(bytes, tags[n - 1], pos) {
                Err(e) => Err(e),
                Ok(size) => Ok((offsets.push(pos as usize), pos + size)),
            },
        }
    }
}

/// The offsets of all fields of a record under a tag list.
pub open spec fn scan(bytes: Seq<u8>, tags: Seq<u8>) -> Result<Seq<usize>, CodecError> {
    match scan_prefix(bytes, tags, tags.len()) {
        Err(e) => Err(e),
        Ok((offsets, pos)) => Ok(offsets),
    }
}

/// Where the scalar at `index` starts, when it is asked for under `tag`.
/// The index must be covered by the offsets and the scalar must lie within
/// the bytes, else the end is unexpected; after that the declared tag must
/// be the one asked for.
pub open spec fn scalar_slot(
    bytes: Seq<u8>,
    offsets: Seq<usize>,
    tags: Seq<u8>,
    index: int,
    tag: u8,
) -> Result<int, CodecError> {
    if index < 0 || index >= offsets.len() || offsets[index] + width(tag) > bytes.len() {
        Err(CodecError::UnexpectedEnd)
    } else if index >= tags.len() || tags[index] != tag {
        Err(CodecError::SchemaMismatch)
    } else {
        Ok(offsets[index] as int)
    }
}

/// Where the payload of the variable-length field at `index` starts and how
/// long it is, when it is asked for under `tag`. The index must be covered
/// by the offsets, then the declared tag must be the one asked for, then the
/// header must decode and the payload lie within the bytes.
pub open spec fn payload_slot(
    bytes: Seq<u8>,
    offsets: Seq<usize>,
    tags: Seq<u8>,
    index: int,
    tag: u8,
) -> Result<(int, int), CodecError> {
    if index < 0 || index >= offsets.len() {
        Err(CodecError::UnexpectedEnd)
    } else if index >= tags.len() || tags[index] != tag {
        Err(CodecError::SchemaMismatch)
    } else {
        payload_span(bytes, offsets[index] as int)
    }
}

/// The bytes of the field at `index` whatever its tag: the payload of a
/// variable-length field, the slot of a scalar. Only the bounds are checked.
pub open spec fn raw_slot(bytes: Seq<u8>, offsets: Seq<usize>, tags: Seq<u8>, index: int) -> Result<
    (int, int),
    CodecError,
> {
    if index < 0 || index >= offsets.len() {
        Err(CodecError::UnexpectedEnd)
    } else if index >= tags.len() {
        Err(CodecError::SchemaMismatch)
    } else if is_variable(tags[index]) {
        payload_span(bytes, offsets[index] as int)
    } else if offsets[index] + width(tags[index]) > bytes.len() {
        Err(CodecError::UnexpectedEnd)
    } else {
        Ok((offsets[index] as int, width(tags[index]) as int))
    }
}

/// The number that the scalar at `index` spells when it is asked for under
/// `tag`: its slot read as a little-endian number.
pub open spec fn scalar_value(
    bytes: Seq<u8>,
    offsets: Seq<usize>,
    tags: Seq<u8>,
    index: int,
    tag: u8,
) -> Result<nat, CodecError> {
    match scalar_slot(bytes, offsets, tags, index, tag) {
        Err(e) => Err(e),
        Ok(start) => Ok(le_value(bytes.subrange(start, start + width(tag)))),
    }
}

/// The bytes between `start` and `start + n`, where a slot was found.
pub open spec fn slot_bytes(bytes: Seq<u8>, slot: Result<(int, int), CodecError>) -> Result<
    Seq<u8>,
    CodecError,
> {
    match slot {
        Err(e) => Err(e),
        Ok((start, n)) => Ok(bytes.subrange(start, start + n)),
    }
}

/// The payload of the variable-length field at `index`, asked for under
/// `tag`.
pub open spec fn payload_bytes(
    bytes: Seq<u8>,
    offsets: Seq<usize>,
    tags: Seq<u8>,
    index: int,
    tag: u8,
) -> Result<Seq<u8>, CodecError> {
    slot_bytes(bytes, payload_slot(bytes, offsets, tags, index, tag))
}

/// The payload of the string at `index`: as `payload_bytes`, and refused as
/// an invalid encoding when the payload is not UTF-8.
pub open spec fn string_bytes(bytes: Seq<u8>, offsets: Seq<usize>, tags: Seq<u8>, index: int) -> Result<
    Seq<u8>,
    CodecError,
> {
    match payload_bytes(bytes, offsets, tags, index, crate::types::STRING) {
        Err(e) => Err(e),
        Ok(payload) => if valid_utf8(payload) {
            Ok(payload)
        } else {
            Err(CodecError::InvalidEncoding)
        },
    }
}

/// The bytes of the field at `index` whatever its tag.
pub open spec fn raw_bytes(bytes: Seq<u8>, offsets: Seq<usize>, tags: Seq<u8>, index: int) -> Result<
    Seq<u8>,
    CodecError,
> {
    slot_bytes(bytes, raw_slot(bytes, offsets, tags, index))
}

/// `bytes` with the `n` bytes at `start` replaced by `patch`.
pub open spec fn splice(bytes: Seq<u8>, start: int, n: int, patch: Seq<u8>) -> Seq<u8> {
    bytes.subrange(0, start) + patch + bytes.subrange(start + n, bytes.len() as int)
}

} // verus!
