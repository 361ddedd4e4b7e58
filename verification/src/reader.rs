//! Random-access readers: a shared one that hands out views into the
//! buffer, and a mutable one that also lets a field's bytes be patched in
//! place.

use crate::buffer::Buffer;
use crate::encoding::{decode_lenenc_int, lemma_pow256_values, pow256, read_le};
use crate::error::CodecError;
use crate::layout::{
    payload_bytes, payload_slot, payload_span, raw_bytes, raw_slot, scalar_slot, scalar_value,
    splice, string_bytes,
};
use crate::raw::bytes_as_mut_slice;
use crate::types;
use crate::types::{lemma_scalar_widths, width, width_of};
use vstd::prelude::*;
use vstd::slice::slice_subrange;
use vstd::string::*;
use vstd::utf8::{encode_utf8, valid_utf8};

verus! {

/// `core::str::from_utf8`: the bytes as a string when they are UTF-8, and
/// nothing when they are not.
#[verifier::external_body]
fn str_from_utf8<'a>(bytes: &'a [u8]) -> (r: Option<&'a str>)
    ensures
        r.is_some() <==> valid_utf8(bytes@),
        r matches Some(s) ==> s.spec_bytes() == bytes@,
{
    core::str::from_utf8(bytes).ok()
}

/// Finds where the scalar at `index` starts.
fn scalar_start(buffer: &Buffer, data_types: &[u8], index: usize, data_type: u8) -> (r: Result<
    usize,
    CodecError,
>)
    ensures
        match r {
            Ok(start) => scalar_slot(
                buffer@,
                buffer.offsets(),
                data_types@,
                index as int,
                data_type,
            ) == Ok::<int, CodecError>(start as int),
            Err(e) => scalar_slot(buffer@, buffer.offsets(), data_types@, index as int, data_type)
                == Err::<int, CodecError>(e),
        },
{
    let total: usize = buffer.as_slice().len();
    if index >= buffer.field_pos_index.len() {
        return Err(CodecError::UnexpectedEnd);
    }
    let start: usize = buffer.field_pos_index[index];
    let field_len: usize = width_of(data_type);
    if start > total || field_len > total - start {
        return Err(CodecError::UnexpectedEnd);
    }
    if index >= data_types.len() || data_types[index] != data_type {
        return Err(CodecError::SchemaMismatch);
    }
    Ok(start)
}

/// Reads the scalar at `index` as a little-endian number.
fn read_scalar(buffer: &Buffer, data_types: &[u8], index: usize, data_type: u8) -> (r: Result<
    u64,
    CodecError,
>)
    requires
        width(data_type) <= 8,
    ensures
        match r {
            Ok(v) => v < pow256(width(data_type)) && scalar_value(
                buffer@,
                buffer.offsets(),
                data_types@,
                index as int,
                data_type,
            ) == Ok::<nat, CodecError>(v as nat),
            Err(e) => scalar_value(buffer@, buffer.offsets(), data_types@, index as int, data_type)
                == Err::<nat, CodecError>(e),
        },
{
    match scalar_start(buffer, data_types, index, data_type) {
        Err(e) => Err(e),
        Ok(start) => Ok(read_le(buffer.as_slice(), start, width_of(data_type))),
    }
}

/// Finds the payload that the header at `start` announces.
fn payload_at(bytes: &[u8], start: usize) -> (r: Result<(usize, usize), CodecError>)
    ensures
        match r {
            Ok((at, n)) => payload_span(bytes@, start as int) == Ok::<(int, int), CodecError>(
                (at as int, n as int),
            ) && at + n <= bytes@.len(),
            Err(e) => payload_span(bytes@, start as int) == Err::<(int, int), CodecError>(e),
        },
{
    let total: usize = bytes.len();
    match decode_lenenc_int(bytes, start) {
        Err(e) => Err(e),
        Ok((v, len_length)) => {
            if v > (total - start - len_length) as u64 {
                Err(CodecError::UnexpectedEnd)
            } else {
                Ok((start + len_length, v as usize))
            }
        },
    }
}

/// Finds the payload of the variable-length field at `index`.
fn payload_range(buffer: &Buffer, data_types: &[u8], index: usize, data_type_id: u8) -> (r: Result<
    (usize, usize),
    CodecError,
>)
    ensures
        match r {
            Ok((at, n)) => payload_slot(
                buffer@,
                buffer.offsets(),
                data_types@,
                index as int,
                data_type_id,
            ) == Ok::<(int, int), CodecError>((at as int, n as int)) && at + n <= buffer@.len(),
            Err(e) => payload_slot(
                buffer@,
                buffer.offsets(),
                data_types@,
                index as int,
                data_type_id,
            ) == Err::<(int, int), CodecError>(e),
        },
{
    if index >= buffer.field_pos_index.len() {
        return Err(CodecError::UnexpectedEnd);
    }
    if index >= data_types.len() || data_types[index] != data_type_id {
        return Err(CodecError::SchemaMismatch);
    }
    payload_at(buffer.as_slice(), buffer.field_pos_index[index])
}

/// Finds the bytes of the field at `index`, whatever its tag.
fn raw_range(buffer: &Buffer, data_types: &[u8], index: usize) -> (r: Result<
    (usize, usize),
    CodecError,
>)
    ensures
        match r {
            Ok((at, n)) => raw_slot(buffer@, buffer.offsets(), data_types@, index as int) == Ok::<
                (int, int),
                CodecError,
            >((at as int, n as int)) && at + n <= buffer@.len(),
            Err(e) => raw_slot(buffer@, buffer.offsets(), data_types@, index as int) == Err::<
                (int, int),
                CodecError,
            >(e),
        },
{
    if index >= buffer.field_pos_index.len() {
        return Err(CodecError::UnexpectedEnd);
    }
    if index >= data_types.len() {
        return Err(CodecError::SchemaMismatch);
    }
    let data_type_id: u8 = data_types[index];
    let start: usize = buffer.field_pos_index[index];
    if data_type_id >= types::BINARY {
        payload_at(buffer.as_slice(), start)
    } else {
        let total: usize = buffer.as_slice().len();
        let len: usize = width_of(data_type_id);
        if start > total || len > total - start {
            Err(CodecError::UnexpectedEnd)
        } else {
            Ok((start, len))
        }
    }
}

/// The payload of the variable-length field at `index`, as a view.
fn get_bytes<'a>(buffer: &'a Buffer, data_types: &[u8], index: usize, data_type_id: u8) -> (r:
    Result<&'a [u8], CodecError>)
    ensures
        match r {
            Ok(s) => payload_bytes(
                buffer@,
                buffer.offsets(),
                data_types@,
                index as int,
                data_type_id,
            ) == Ok::<Seq<u8>, CodecError>(s@),
            Err(e) => payload_bytes(
                buffer@,
                buffer.offsets(),
                data_types@,
                index as int,
                data_type_id,
            ) == Err::<Seq<u8>, CodecError>(e),
        },
{
    match payload_range(buffer, data_types, index, data_type_id) {
        Err(e) => Err(e),
        Ok((at, n)) => {
            let all = buffer.as_slice();
            let total: usize = all.len();
            Ok(slice_subrange(all, at, at + n))
        },
    }
}

/// The string at `index`, as a view.
fn get_str_view<'a>(buffer: &'a Buffer, data_types: &[u8], index: usize) -> (r: Result<
    &'a str,
    CodecError,
>)
    ensures
        match r {
            Ok(s) => string_bytes(buffer@, buffer.offsets(), data_types@, index as int) == Ok::<
                Seq<u8>,
                CodecError,
            >(s.spec_bytes()),
            Err(e) => string_bytes(buffer@, buffer.offsets(), data_types@, index as int) == Err::<
                Seq<u8>,
                CodecError,
            >(e),
        },
{
    match get_bytes(buffer, data_types, index, types::STRING) {
        Err(e) => Err(e),
        Ok(bytes) => match str_from_utf8(bytes) {
            Some(s) => Ok(s),
            None => Err(CodecError::InvalidEncoding),
        },
    }
}

/// The bytes of the field at `index` whatever its tag, as a view.
fn get_raw<'a>(buffer: &'a Buffer, data_types: &[u8], index: usize) -> (r: Result<
    &'a [u8],
    CodecError,
>)
    ensures
        match r {
            Ok(s) => raw_bytes(buffer@, buffer.offsets(), data_types@, index as int) == Ok::<
                Seq<u8>,
                CodecError,
            >(s@),
            Err(e) => raw_bytes(buffer@, buffer.offsets(), data_types@, index as int) == Err::<
                Seq<u8>,
                CodecError,
            >(e),
        },
{
    match raw_range(buffer, data_types, index) {
        Err(e) => Err(e),
        Ok((at, n)) => {
            let all = buffer.as_slice();
            let total: usize = all.len();
            Ok(slice_subrange(all, at, at + n))
        },
    }
}

/// The run of `n` bytes at `at`, for patching in place.
fn slice_range_mut<'a>(s: &'a mut [u8], at: usize, n: usize) -> (r: &'a mut [u8])
    requires
        at + n <= old(s)@.len(),
    ensures
        r@ == old(s)@.subrange(at as int, at + n),
        final(s)@ == splice(old(s)@, at as int, n as int, final(r)@),
{
    let (head, tail) = s.split_at_mut(at);
    let (field, rest) = tail.split_at_mut(n);
    proof {
        assert(final(head)@ == head@);
        assert(final(rest)@ == rest@);
    }
    field
}

/// A read-only view of a buffer under a tag list.
pub struct BufferReader<'a, 'b> {
    raw_buffer: &'a Buffer,
    data_types: &'b [u8],
}

impl<'a, 'b> BufferReader<'a, 'b> {
    /// The bytes of the buffer.
    pub closed spec fn bytes(&self) -> Seq<u8> {
        self.raw_buffer@
    }

    /// The offsets that the reads go by.
    pub closed spec fn offsets(&self) -> Seq<usize> {
        self.raw_buffer.offsets()
    }

    /// The tag list of the view.
    pub closed spec fn tags(&self) -> Seq<u8> {
        self.data_types@
    }

    /// What a scalar read under `tag` finds at `index`.
    pub open spec fn scalar(&self, index: usize, tag: u8) -> Result<nat, CodecError> {
        scalar_value(self.bytes(), self.offsets(), self.tags(), index as int, tag)
    }

    pub(crate) fn new(raw_buffer: &'a Buffer, data_types: &'b [u8]) -> (r: Self)
        ensures
            r.bytes() == raw_buffer@,
            r.offsets() == raw_buffer.offsets(),
            r.tags() == data_types@,
    {
        BufferReader { data_types, raw_buffer }
    }

    /// Reads a boolean: true where the byte is 1.
    pub fn get_bool(&self, index: usize) -> (r: Result<bool, CodecError>)
        ensures
            r == match self.scalar(index, types::BOOL) {
                Ok(n) => Ok::<bool, CodecError>(n == 1),
                Err(e) => Err::<bool, CodecError>(e),
            },
    {
        proof {
            lemma_scalar_widths();
            lemma_pow256_values();
        }
        match read_scalar(self.raw_buffer, self.data_types, index, types::BOOL) {
            Err(e) => Err(e),
            Ok(v) => Ok(v == 1),
        }
    }

    /// Reads a signed byte.
    pub fn get_i8(&self, index: usize) -> (r: Result<i8, CodecError>)
        ensures
            r == match self.scalar(index, types::I8) {
                Ok(n) => Ok::<i8, CodecError>(n as u8 as i8),
                Err(e) => Err::<i8, CodecError>(e),
            },
    {
        proof {
            lemma_scalar_widths();
            lemma_pow256_values();
        }
        match read_scalar(self.raw_buffer, self.data_types, index, types::I8) {
            Err(e) => Err(e),
            Ok(v) => Ok(v as u8 as i8),
        }
    }

    /// Reads an unsigned byte.
    pub fn get_u8(&self, index: usize) -> (r: Result<u8, CodecError>)
        ensures
            r == match self.scalar(index, types::U8) {
                Ok(n) => Ok::<u8, CodecError>(n as u8),
                Err(e) => Err::<u8, CodecError>(e),
            },
    {
        proof {
            lemma_scalar_widths();
            lemma_pow256_values();
        }
        match read_scalar(self.raw_buffer, self.data_types, index, types::U8) {
            Err(e) => Err(e),
            Ok(v) => Ok(v as u8),
        }
    }

    /// Reads a signed 16-bit integer.
    pub fn get_i16(&self, index: usize) -> (r: Result<i16, CodecError>)
        ensures
            r == match self.scalar(index, types::I16) {
                Ok(n) => Ok::<i16, CodecError>(n as u16 as i16),
                Err(e) => Err::<i16, CodecError>(e),
            },
    {
        proof {
            lemma_scalar_widths();
            lemma_pow256_values();
        }
        match read_scalar(self.raw_buffer, self.data_types, index, types::I16) {
            Err(e) => Err(e),
            Ok(v) => Ok(v as u16 as i16),
        }
    }

    /// Reads an unsigned 16-bit integer.
    pub fn get_u16(&self, index: usize) -> (r: Result<u16, CodecError>)
        ensures
            r == match self.scalar(index, types::U16) {
                Ok(n) => Ok::<u16, CodecError>(n as u16),
                Err(e) => Err::<u16, CodecError>(e),
            },
    {
        proof {
            lemma_scalar_widths();
            lemma_pow256_values();
        }
        match read_scalar(self.raw_buffer, self.data_types, index, types::U16) {
            Err(e) => Err(e),
            Ok(v) => Ok(v as u16),
        }
    }

    /// Reads a signed 32-bit integer.
    pub fn get_i32(&self, index: usize) -> (r: Result<i32, CodecError>)
        ensures
            r == match self.scalar(index, types::I32) {
                Ok(n) => Ok::<i32, CodecError>(n as u32 as i32),
                Err(e) => Err::<i32, CodecError>(e),
            },
    {
        proof {
            lemma_scalar_widths();
            lemma_pow256_values();
        }
        match read_scalar(self.raw_buffer, self.data_types, index, types::I32) {
            Err(e) => Err(e),
            Ok(v) => Ok(v as u32 as i32),
        }
    }

    /// Reads an unsigned 32-bit integer.
    pub fn get_u32(&self, index: usize) -> (r: Result<u32, CodecError>)
        ensures
            r == match self.scalar(index, types::U32) {
                Ok(n) => Ok::<u32, CodecError>(n as u32),
                Err(e) => Err::<u32, CodecError>(e),
            },
    {
        proof {
            lemma_scalar_widths();
            lemma_pow256_values();
        }
        match read_scalar(self.raw_buffer, self.data_types, index, types::U32) {
            Err(e) => Err(e),
            Ok(v) => Ok(v as u32),
        }
    }

    /// Reads a signed 64-bit integer.
    pub fn get_i64(&self, index: usize) -> (r: Result<i64, CodecError>)
        ensures
            r == match self.scalar(index, types::I64) {
                Ok(n) => Ok::<i64, CodecError>(n as u64 as i64),
                Err(e) => Err::<i64, CodecError>(e),
            },
    {
        proof {
            lemma_scalar_widths();
            lemma_pow256_values();
        }
        match read_scalar(self.raw_buffer, self.data_types, index, types::I64) {
            Err(e) => Err(e),
            Ok(v) => Ok(v as i64),
        }
    }

    /// Reads an unsigned 64-bit integer.
    pub fn get_u64(&self, index: usize) -> (r: Result<u64, CodecError>)
        ensures
            r == match self.scalar(index, types::U64) {
                Ok(n) => Ok::<u64, CodecError>(n as u64),
                Err(e) => Err::<u64, CodecError>(e),
            },
    {
        proof {
            lemma_scalar_widths();
            lemma_pow256_values();
        }
        match read_scalar(self.raw_buffer, self.data_types, index, types::U64) {
            Err(e) => Err(e),
            Ok(v) => Ok(v),
        }
    }

    /// Reads a 32-bit float as its IEEE 754 bit pattern.
    pub fn get_f32(&self, index: usize) -> (r: Result<u32, CodecError>)
        ensures
            r == match self.scalar(index, types::F32) {
                Ok(n) => Ok::<u32, CodecError>(n as u32),
                Err(e) => Err::<u32, CodecError>(e),
            },
    {
        proof {
            lemma_scalar_widths();
            lemma_pow256_values();
        }
        match read_scalar(self.raw_buffer, self.data_types, index, types::F32) {
            Err(e) => Err(e),
            Ok(v) => Ok(v as u32),
        }
    }

    /// Reads a 64-bit float as its IEEE 754 bit pattern.
    pub fn get_f64(&self, index: usize) -> (r: Result<u64, CodecError>)
        ensures
            r == match self.scalar(index, types::F64) {
                Ok(n) => Ok::<u64, CodecError>(n as u64),
                Err(e) => Err::<u64, CodecError>(e),
            },
    {
        proof {
            lemma_scalar_widths();
            lemma_pow256_values();
        }
        match read_scalar(self.raw_buffer, self.data_types, index, types::F64) {
            Err(e) => Err(e),
            Ok(v) => Ok(v),
        }
    }

    /// Reads a string as a view into the buffer. The payload must be UTF-8.
    pub fn get_str(&self, index: usize) -> (r: Result<&'a str, CodecError>)
        ensures
            match r {
                Ok(s) => string_bytes(self.bytes(), self.offsets(), self.tags(), index as int)
                    == Ok::<Seq<u8>, CodecError>(s.spec_bytes()),
                Err(e) => string_bytes(self.bytes(), self.offsets(), self.tags(), index as int)
                    == Err::<Seq<u8>, CodecError>(e),
            },
    {
        get_str_view(self.raw_buffer, self.data_types, index)
    }

    /// Reads a binary value as a view into the buffer.
    pub fn get_binary(&self, index: usize) -> (r: Result<&'a [u8], CodecError>)
        ensures
            match r {
                Ok(s) => payload_bytes(
                    self.bytes(),
                    self.offsets(),
                    self.tags(),
                    index as int,
                    types::BINARY,
                ) == Ok::<Seq<u8>, CodecError>(s@),
                Err(e) => payload_bytes(
                    self.bytes(),
                    self.offsets(),
                    self.tags(),
                    index as int,
                    types::BINARY,
                ) == Err::<Seq<u8>, CodecError>(e),
            },
    {
        get_bytes(self.raw_buffer, self.data_types, index, types::BINARY)
    }

    /// Reads the bytes of a field whatever its tag: the payload of a
    /// variable-length field, the slot of a scalar.
    pub fn get_bytes_raw(&self, index: usize) -> (r: Result<&[u8], CodecError>)
        ensures
            match r {
                Ok(s) => raw_bytes(self.bytes(), self.offsets(), self.tags(), index as int)
                    == Ok::<Seq<u8>, CodecError>(s@),
                Err(e) => raw_bytes(self.bytes(), self.offsets(), self.tags(), index as int)
                    == Err::<Seq<u8>, CodecError>(e),
            },
    {
        get_raw(self.raw_buffer, self.data_types, index)
    }
}

/// A view of a buffer under a tag list that can also patch the bytes of a
/// field in place. The length of a field never changes.
pub struct BufferMutReader<'a, 'b> {
    pub raw_buffer: &'a mut Buffer,
    pub data_types: &'b [u8],
}

impl<'a, 'b> BufferMutReader<'a, 'b> {
    /// The bytes of the buffer as the view stands.
    pub open spec fn bytes(&self) -> Seq<u8> {
        self.raw_buffer.view()
    }

    /// The offsets that the reads go by.
    pub open spec fn offsets(&self) -> Seq<usize> {
        self.raw_buffer.offsets()
    }

    /// The tag list of the view.
    pub open spec fn tags(&self) -> Seq<u8> {
        self.data_types@
    }

    /// What a scalar read under `tag` finds at `index`.
    pub open spec fn scalar(&self, index: usize, tag: u8) -> Result<nat, CodecError> {
        scalar_value(self.bytes(), self.offsets(), self.tags(), index as int, tag)
    }

    pub(crate) fn new(raw_buffer: &'a mut Buffer, data_types: &'b [u8]) -> (r: Self)
        ensures
            *r.raw_buffer == *old(raw_buffer),
            *final(r.raw_buffer) == *final(raw_buffer),
            r.data_types@ == data_types@,
    {
        BufferMutReader { data_types, raw_buffer }
    }

    /// Reads a boolean: true where the byte is 1.
    pub fn get_bool(&mut self, index: usize) -> (r: Result<bool, CodecError>)
        ensures
            *final(self) == *old(self),
            r == match old(self).scalar(index, types::BOOL) {
                Ok(n) => Ok::<bool, CodecError>(n == 1),
                Err(e) => Err::<bool, CodecError>(e),
            },
    {
        proof {
            lemma_scalar_widths();
            lemma_pow256_values();
        }
        match read_scalar(&*self.raw_buffer, self.data_types, index, types::BOOL) {
            Err(e) => Err(e),
            Ok(v) => Ok(v == 1),
        }
    }

    /// Reads a signed byte.
    pub fn get_i8(&mut self, index: usize) -> (r: Result<i8, CodecError>)
        ensures
            *final(self) == *old(self),
            r == match old(self).scalar(index, types::I8) {
                Ok(n) => Ok::<i8, CodecError>(n as u8 as i8),
                Err(e) => Err::<i8, CodecError>(e),
            },
    {
        proof {
            lemma_scalar_widths();
            lemma_pow256_values();
        }
        match read_scalar(&*self.raw_buffer, self.data_types, index, types::I8) {
            Err(e) => Err(e),
            Ok(v) => Ok(v as u8 as i8),
        }
    }

    /// Reads an unsigned byte.
    pub fn get_u8(&mut self, index: usize) -> (r: Result<u8, CodecError>)
        ensures
            *final(self) == *old(self),
            r == match old(self).scalar(index, types::U8) {
                Ok(n) => Ok::<u8, CodecError>(n as u8),
                Err(e) => Err::<u8, CodecError>(e),
            },
    {
        proof {
            lemma_scalar_widths();
            lemma_pow256_values();
        }
        match read_scalar(&*self.raw_buffer, self.data_types, index, types::U8) {
            Err(e) => Err(e),
            Ok(v) => Ok(v as u8),
        }
    }

    /// Reads a signed 16-bit integer.
    pub fn get_i16(&mut self, index: usize) -> (r: Result<i16, CodecError>)
        ensures
            *final(self) == *old(self),
            r == match old(self).scalar(index, types::I16) {
                Ok(n) => Ok::<i16, CodecError>(n as u16 as i16),
                Err(e) => Err::<i16, CodecError>(e),
            },
    {
        proof {
            lemma_scalar_widths();
            lemma_pow256_values();
        }
        match read_scalar(&*self.raw_buffer, self.data_types, index, types::I16) {
            Err(e) => Err(e),
            Ok(v) => Ok(v as u16 as i16),
        }
    }

    /// Reads an unsigned 16-bit integer.
    pub fn get_u16(&mut self, index: usize) -> (r: Result<u16, CodecError>)
        ensures
            *final(self) == *old(self),
            r == match old(self).scalar(index, types::U16) {
                Ok(n) => Ok::<u16, CodecError>(n as u16),
                Err(e) => Err::<u16, CodecError>(e),
            },
    {
        proof {
            lemma_scalar_widths();
            lemma_pow256_values();
        }
        match read_scalar(&*self.raw_buffer, self.data_types, index, types::U16) {
            Err(e) => Err(e),
            Ok(v) => Ok(v as u16),
        }
    }

    /// Reads a signed 32-bit integer.
    pub fn get_i32(&mut self, index: usize) -> (r: Result<i32, CodecError>)
        ensures
            *final(self) == *old(self),
            r == match old(self).scalar(index, types::I32) {
                Ok(n) => Ok::<i32, CodecError>(n as u32 as i32),
                Err(e) => Err::<i32, CodecError>(e),
            },
    {
        proof {
            lemma_scalar_widths();
            lemma_pow256_values();
        }
        match read_scalar(&*self.raw_buffer, self.data_types, index, types::I32) {
            Err(e) => Err(e),
            Ok(v) => Ok(v as u32 as i32),
        }
    }

    /// Reads an unsigned 32-bit integer.
    pub fn get_u32(&mut self, index: usize) -> (r: Result<u32, CodecError>)
        ensures
            *final(self) == *old(self),
            r == match old(self).scalar(index, types::U32) {
                Ok(n) => Ok::<u32, CodecError>(n as u32),
                Err(e) => Err::<u32, CodecError>(e),
            },
    {
        proof {
            lemma_scalar_widths();
            lemma_pow256_values();
        }
        match read_scalar(&*self.raw_buffer, self.data_types, index, types::U32) {
            Err(e) => Err(e),
            Ok(v) => Ok(v as u32),
        }
    }

    /// Reads a signed 64-bit integer.
    pub fn get_i64(&mut self, index: usize) -> (r: Result<i64, CodecError>)
        ensures
            *final(self) == *old(self),
            r == match old(self).scalar(index, types::I64) {
                Ok(n) => Ok::<i64, CodecError>(n as u64 as i64),
                Err(e) => Err::<i64, CodecError>(e),
            },
    {
        proof {
            lemma_scalar_widths();
            lemma_pow256_values();
        }
        match read_scalar(&*self.raw_buffer, self.data_types, index, types::I64) {
            Err(e) => Err(e),
            Ok(v) => Ok(v as i64),
        }
    }

    /// Reads an unsigned 64-bit integer.
    pub fn get_u64(&mut self, index: usize) -> (r: Result<u64, CodecError>)
        ensures
            *final(self) == *old(self),
            r == match old(self).scalar(index, types::U64) {
                Ok(n) => Ok::<u64, CodecError>(n as u64),
                Err(e) => Err::<u64, CodecError>(e),
            },
    {
        proof {
            lemma_scalar_widths();
            lemma_pow256_values();
        }
        match read_scalar(&*self.raw_buffer, self.data_types, index, types::U64) {
            Err(e) => Err(e),
            Ok(v) => Ok(v),
        }
    }

    /// Reads a 32-bit float as its IEEE 754 bit pattern.
    pub fn get_f32(&mut self, index: usize) -> (r: Result<u32, CodecError>)
        ensures
            *final(self) == *old(self),
            r == match old(self).scalar(index, types::F32) {
                Ok(n) => Ok::<u32, CodecError>(n as u32),
                Err(e) => Err::<u32, CodecError>(e),
            },
    {
        proof {
            lemma_scalar_widths();
            lemma_pow256_values();
        }
        match read_scalar(&*self.raw_buffer, self.data_types, index, types::F32) {
            Err(e) => Err(e),
            Ok(v) => Ok(v as u32),
        }
    }

    /// Reads a 64-bit float as its IEEE 754 bit pattern.
    pub fn get_f64(&mut self, index: usize) -> (r: Result<u64, CodecError>)
        ensures
            *final(self) == *old(self),
            r == match old(self).scalar(index, types::F64) {
                Ok(n) => Ok::<u64, CodecError>(n as u64),
                Err(e) => Err::<u64, CodecError>(e),
            },
    {
        proof {
            lemma_scalar_widths();
            lemma_pow256_values();
        }
        match read_scalar(&*self.raw_buffer, self.data_types, index, types::F64) {
            Err(e) => Err(e),
            Ok(v) => Ok(v),
        }
    }

    /// Reads a string into a value of its own. The payload must be UTF-8.
    pub fn get_str(&mut self, index: usize) -> (r: Result<String, CodecError>)
        ensures
            *final(self) == *old(self),
            match r {
                Ok(s) => string_bytes(
                    old(self).bytes(),
                    old(self).offsets(),
                    old(self).tags(),
                    index as int,
                ) == Ok::<Seq<u8>, CodecError>(encode_utf8(s@)),
                Err(e) => string_bytes(
                    old(self).bytes(),
                    old(self).offsets(),
                    old(self).tags(),
                    index as int,
                ) == Err::<Seq<u8>, CodecError>(e),
            },
    {
        match get_str_view(&*self.raw_buffer, self.data_types, index) {
            Err(e) => Err(e),
            Ok(s) => Ok(String::from_str(s)),
        }
    }

    /// Reads a binary value as a view into the buffer.
    pub fn get_binary(&mut self, index: usize) -> (r: Result<&[u8], CodecError>)
        ensures
            *final(self) == *old(self),
            match r {
                Ok(s) => payload_bytes(
                    old(self).bytes(),
                    old(self).offsets(),
                    old(self).tags(),
                    index as int,
                    types::BINARY,
                ) == Ok::<Seq<u8>, CodecError>(s@),
                Err(e) => payload_bytes(
                    old(self).bytes(),
                    old(self).offsets(),
                    old(self).tags(),
                    index as int,
                    types::BINARY,
                ) == Err::<Seq<u8>, CodecError>(e),
            },
    {
        get_bytes(&*self.raw_buffer, self.data_types, index, types::BINARY)
    }

    /// Reads the bytes of a field whatever its tag.
    pub fn get_bytes_raw(&mut self, index: usize) -> (r: Result<&[u8], CodecError>)
        ensures
            *final(self) == *old(self),
            match r {
                Ok(s) => raw_bytes(
                    old(self).bytes(),
                    old(self).offsets(),
                    old(self).tags(),
                    index as int,
                ) == Ok::<Seq<u8>, CodecError>(s@),
                Err(e) => raw_bytes(
                    old(self).bytes(),
                    old(self).offsets(),
                    old(self).tags(),
                    index as int,
                ) == Err::<Seq<u8>, CodecError>(e),
            },
    {
        get_raw(&*self.raw_buffer, self.data_types, index)
    }

    /// Hands out the bytes of a field for patching in place: the payload of
    /// a variable-length field, the slot of a scalar. What is stored through
    /// the view replaces exactly those bytes; offsets and lengths stay.
    pub fn get_bytes_raw_mut(&mut self, index: usize) -> (r: Result<&mut [u8], CodecError>)
        ensures
            final(self).tags() == old(self).tags(),
            final(self).offsets() == old(self).offsets(),
            *final(final(self).raw_buffer) == *final(old(self).raw_buffer),
            old(self).raw_buffer.wf() ==> final(self).raw_buffer.wf(),
            match r {
                Ok(s) => {
                    &&& raw_bytes(
                        old(self).bytes(),
                        old(self).offsets(),
                        old(self).tags(),
                        index as int,
                    ) == Ok::<Seq<u8>, CodecError>(s@)
                    &&& raw_slot(
                        old(self).bytes(),
                        old(self).offsets(),
                        old(self).tags(),
                        index as int,
                    ) matches Ok((start, n)) && final(self).bytes() == splice(
                        old(self).bytes(),
                        start,
                        n,
                        final(s)@,
                    ) && final(s)@.len() == n
                },
                Err(e) => {
                    &&& raw_bytes(
                        old(self).bytes(),
                        old(self).offsets(),
                        old(self).tags(),
                        index as int,
                    ) == Err::<Seq<u8>, CodecError>(e)
                    &&& final(self).bytes() == old(self).bytes()
                },
            },
    {
        match raw_range(&*self.raw_buffer, self.data_types, index) {
            Err(e) => Err(e),
            Ok((at, n)) => {
                let all = bytes_as_mut_slice(&mut self.raw_buffer.buf);
                Ok(slice_range_mut(all, at, n))
            },
        }
    }
}

} // verus!
