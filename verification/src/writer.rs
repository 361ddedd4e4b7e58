//! The sequential writer: fields are appended in the order of the tag list,
//! with no gaps and no rewrites.

use crate::buffer::Buffer;
use crate::encoding::{
    le_bytes, lemma_le_bytes_len, lemma_lenenc_shape, lenenc_len, write_lenenc_int,
};
use crate::error::CodecError;
use crate::raw::{
    bytes_put_i16_le, bytes_put_i32_le, bytes_put_i64_le, bytes_put_i8, bytes_put_slice,
    bytes_put_u16_le, bytes_put_u32_le, bytes_put_u64_le, bytes_put_u8,
};
use crate::layout::var_field;
use crate::types;
use crate::types::{is_variable, width, width_of};
use vstd::prelude::*;
use vstd::string::*;

verus! {

/// What a raw write of `value` appends when field `index` is next: the value
/// behind a length header for a variable-length field, the value itself for
/// a scalar, and nothing where no field is left.
pub open spec fn raw_field(tags: Seq<u8>, index: nat, value: Seq<u8>) -> Seq<u8> {
    if index >= tags.len() {
        Seq::<u8>::empty()
    } else if is_variable(tags[index as int]) {
        var_field(value)
    } else {
        value
    }
}

/// A write session over a buffer and a tag list. `write_field_step` is the
/// index of the field that the next call writes.
pub struct BufferWriter<'a, 'b> {
    pub raw_buffer: &'a mut Buffer,
    pub data_types: &'b [u8],
    pub write_field_step: usize,
}

impl<'a, 'b> BufferWriter<'a, 'b> {
    /// The bytes of the buffer as the session stands.
    pub open spec fn bytes(&self) -> Seq<u8> {
        self.raw_buffer.view()
    }

    /// The offsets recorded so far, one per field written.
    pub open spec fn offsets(&self) -> Seq<usize> {
        self.raw_buffer.offsets()
    }

    /// The tag list of the session.
    pub open spec fn tags(&self) -> Seq<u8> {
        self.data_types@
    }

    /// The index of the field that comes next.
    pub open spec fn index(&self) -> nat {
        self.write_field_step as nat
    }

    /// The buffer is sound and holds one offset per field written.
    pub open spec fn wf(&self) -> bool {
        &&& self.raw_buffer.wf()
        &&& self.offsets().len() == self.write_field_step
    }

    /// What one write does to a session that stood at `pre`, for a call
    /// that writes `encoded` under `tag`. After the last field the write is
    /// a sequence violation; under another tag than the declared one it is a
    /// mismatch; either way nothing changes. Otherwise the bytes are
    /// appended, their offset is recorded and the cursor moves on.
    pub open spec fn wrote(
        &self,
        pre: &Self,
        tag: u8,
        encoded: Seq<u8>,
        r: Result<(), CodecError>,
    ) -> bool {
        &&& self.wf()
        &&& self.tags() == pre.tags()
        &&& if pre.index() >= pre.tags().len() {
            &&& r == Err::<(), CodecError>(CodecError::SequentialWriteViolation)
            &&& self.unchanged(pre)
        } else if pre.tags()[pre.index() as int] != tag {
            &&& r == Err::<(), CodecError>(CodecError::SchemaMismatch)
            &&& self.unchanged(pre)
        } else {
            &&& r == Ok::<(), CodecError>(())
            &&& self.bytes() == pre.bytes() + encoded
            &&& self.offsets() == pre.offsets().push(pre.bytes().len() as usize)
            &&& self.index() == pre.index() + 1
        }
    }

    /// Bytes, offsets and cursor are those of `pre`.
    pub open spec fn unchanged(&self, pre: &Self) -> bool {
        &&& self.bytes() == pre.bytes()
        &&& self.offsets() == pre.offsets()
        &&& self.index() == pre.index()
    }

    pub(crate) fn new(raw_buffer: &'a mut Buffer, data_types: &'b [u8]) -> (w: Self)
        ensures
            *w.raw_buffer == *old(raw_buffer),
            *final(w.raw_buffer) == *final(raw_buffer),
            w.data_types@ == data_types@,
            w.write_field_step == 0,
    {
        BufferWriter { raw_buffer, data_types, write_field_step: 0 }
    }

    /// Checks that the next field exists and is declared with `data_type`;
    /// if so, records where it starts and moves the cursor past it.
    fn data_type_check(&mut self, data_type: u8) -> (r: Result<(), CodecError>)
        requires
            old(self).wf(),
        ensures
            *final(final(self).raw_buffer) == *final(old(self).raw_buffer),
            final(self).tags() == old(self).tags(),
            final(self).bytes() == old(self).bytes(),
            final(self).raw_buffer.wf(),
            if old(self).index() >= old(self).tags().len() {
                &&& r == Err::<(), CodecError>(CodecError::SequentialWriteViolation)
                &&& final(self).unchanged(old(self))
            } else if old(self).tags()[old(self).index() as int] != data_type {
                &&& r == Err::<(), CodecError>(CodecError::SchemaMismatch)
                &&& final(self).unchanged(old(self))
            } else {
                &&& r == Ok::<(), CodecError>(())
                &&& final(self).offsets() == old(self).offsets().push(
                    old(self).bytes().len() as usize,
                )
                &&& final(self).index() == old(self).index() + 1
            },
    {
        if self.write_field_step >= self.data_types.len() {
            return Err(CodecError::SequentialWriteViolation);
        }
        if self.data_types[self.write_field_step] != data_type {
            return Err(CodecError::SchemaMismatch);
        }
        self.raw_buffer.field_pos_index.push(self.raw_buffer.buf_len);
        self.write_field_step = self.write_field_step + 1;
        Ok(())
    }

    /// Grows the logical length by the bytes just appended.
    fn step_position(&mut self, pos_step_len: usize)
        requires
            old(self).raw_buffer.buf_len + pos_step_len == old(self).bytes().len(),
            old(self).bytes().len() <= usize::MAX,
        ensures
            *final(final(self).raw_buffer) == *final(old(self).raw_buffer),
            final(self).tags() == old(self).tags(),
            final(self).unchanged(old(self)),
            final(self).raw_buffer.wf(),
    {
        self.raw_buffer.buf_len = self.raw_buffer.buf_len + pos_step_len;
    }

    /// Writes a boolean as one byte, 1 for true and 0 for false.
    pub fn set_bool(&mut self, value: bool) -> (r: Result<(), CodecError>)
        requires
            old(self).wf(),
            old(self).bytes().len() + 1 <= isize::MAX,
        ensures
            final(self).wrote(old(self), types::BOOL, seq![if value { 1u8 } else { 0u8 }], r),
            final(self).bytes().len() == old(self).bytes().len() + if r is Ok { 1nat } else { 0nat },
            *final(final(self).raw_buffer) == *final(old(self).raw_buffer),
    {
        match self.data_type_check(types::BOOL) {
            Err(e) => Err(e),
            Ok(()) => {
                let ghost before = self.bytes();
                let value: u8 = if value { 1 } else { 0 };
                bytes_put_u8(&mut self.raw_buffer.buf, value);
                self.step_position(1);
                assert(before.push(value) =~= before + seq![value]);
                Ok(())
            },
        }
    }

    /// Writes a signed byte.
    pub fn set_i8(&mut self, value: i8) -> (r: Result<(), CodecError>)
        requires
            old(self).wf(),
            old(self).bytes().len() + 1 <= isize::MAX,
        ensures
            final(self).wrote(old(self), types::I8, seq![value as u8], r),
            final(self).bytes().len() == old(self).bytes().len() + if r is Ok { 1nat } else { 0nat },
            *final(final(self).raw_buffer) == *final(old(self).raw_buffer),
    {
        match self.data_type_check(types::I8) {
            Err(e) => Err(e),
            Ok(()) => {
                let ghost before = self.bytes();
                proof {
                    lemma_le_bytes_len(value as u8 as nat, 1);
                }
                bytes_put_i8(&mut self.raw_buffer.buf, value);
                self.step_position(1);
                assert(self.bytes() =~= before + seq![value as u8]);
                Ok(())
            },
        }
    }

    /// Writes an unsigned byte.
    pub fn set_u8(&mut self, value: u8) -> (r: Result<(), CodecError>)
        requires
            old(self).wf(),
            old(self).bytes().len() + 1 <= isize::MAX,
        ensures
            final(self).wrote(old(self), types::U8, seq![value], r),
            final(self).bytes().len() == old(self).bytes().len() + if r is Ok { 1nat } else { 0nat },
            *final(final(self).raw_buffer) == *final(old(self).raw_buffer),
    {
        match self.data_type_check(types::U8) {
            Err(e) => Err(e),
            Ok(()) => {
                let ghost before = self.bytes();
                proof {
                    lemma_le_bytes_len(value as nat, 1);
                }
                bytes_put_u8(&mut self.raw_buffer.buf, value);
                self.step_position(1);
                assert(self.bytes() =~= before + seq![value]);
                Ok(())
            },
        }
    }

    /// Writes a signed 16-bit integer, two's complement, little-endian.
    pub fn set_i16(&mut self, value: i16) -> (r: Result<(), CodecError>)
        requires
            old(self).wf(),
            old(self).bytes().len() + 2 <= isize::MAX,
        ensures
            final(self).wrote(old(self), types::I16, le_bytes(value as u16 as nat, 2), r),
            final(self).bytes().len() == old(self).bytes().len() + if r is Ok { 2nat } else { 0nat },
            *final(final(self).raw_buffer) == *final(old(self).raw_buffer),
    {
        match self.data_type_check(types::I16) {
            Err(e) => Err(e),
            Ok(()) => {
                let ghost before = self.bytes();
                proof {
                    lemma_le_bytes_len(value as u16 as nat, 2);
                }
                bytes_put_i16_le(&mut self.raw_buffer.buf, value);
                self.step_position(2);
                assert(self.bytes() =~= before + le_bytes(value as u16 as nat, 2));
                Ok(())
            },
        }
    }

    /// Writes an unsigned 16-bit integer, little-endian.
    pub fn set_u16(&mut self, value: u16) -> (r: Result<(), CodecError>)
        requires
            old(self).wf(),
            old(self).bytes().len() + 2 <= isize::MAX,
        ensures
            final(self).wrote(old(self), types::U16, le_bytes(value as nat, 2), r),
            final(self).bytes().len() == old(self).bytes().len() + if r is Ok { 2nat } else { 0nat },
            *final(final(self).raw_buffer) == *final(old(self).raw_buffer),
    {
        match self.data_type_check(types::U16) {
            Err(e) => Err(e),
            Ok(()) => {
                let ghost before = self.bytes();
                proof {
                    lemma_le_bytes_len(value as nat, 2);
                }
                bytes_put_u16_le(&mut self.raw_buffer.buf, value);
                self.step_position(2);
                assert(self.bytes() =~= before + le_bytes(value as nat, 2));
                Ok(())
            },
        }
    }

    /// Writes a signed 32-bit integer, two's complement, little-endian.
    pub fn set_i32(&mut self, value: i32) -> (r: Result<(), CodecError>)
        requires
            old(self).wf(),
            old(self).bytes().len() + 4 <= isize::MAX,
        ensures
            final(self).wrote(old(self), types::I32, le_bytes(value as u32 as nat, 4), r),
            final(self).bytes().len() == old(self).bytes().len() + if r is Ok { 4nat } else { 0nat },
            *final(final(self).raw_buffer) == *final(old(self).raw_buffer),
    {
        match self.data_type_check(types::I32) {
            Err(e) => Err(e),
            Ok(()) => {
                let ghost before = self.bytes();
                proof {
                    lemma_le_bytes_len(value as u32 as nat, 4);
                }
                bytes_put_i32_le(&mut self.raw_buffer.buf, value);
                self.step_position(4);
                assert(self.bytes() =~= before + le_bytes(value as u32 as nat, 4));
                Ok(())
            },
        }
    }

    /// Writes an unsigned 32-bit integer, little-endian.
    pub fn set_u32(&mut self, value: u32) -> (r: Result<(), CodecError>)
        requires
            old(self).wf(),
            old(self).bytes().len() + 4 <= isize::MAX,
        ensures
            final(self).wrote(old(self), types::U32, le_bytes(value as nat, 4), r),
            final(self).bytes().len() == old(self).bytes().len() + if r is Ok { 4nat } else { 0nat },
            *final(final(self).raw_buffer) == *final(old(self).raw_buffer),
    {
        match self.data_type_check(types::U32) {
            Err(e) => Err(e),
            Ok(()) => {
                let ghost before = self.bytes();
                proof {
                    lemma_le_bytes_len(value as nat, 4);
                }
                bytes_put_u32_le(&mut self.raw_buffer.buf, value);
                self.step_position(4);
                assert(self.bytes() =~= before + le_bytes(value as nat, 4));
                Ok(())
            },
        }
    }

    /// Writes a signed 64-bit integer, two's complement, little-endian.
    pub fn set_i64(&mut self, value: i64) -> (r: Result<(), CodecError>)
        requires
            old(self).wf(),
            old(self).bytes().len() + 8 <= isize::MAX,
        ensures
            final(self).wrote(old(self), types::I64, le_bytes(value as u64 as nat, 8), r),
            final(self).bytes().len() == old(self).bytes().len() + if r is Ok { 8nat } else { 0nat },
            *final(final(self).raw_buffer) == *final(old(self).raw_buffer),
    {
        match self.data_type_check(types::I64) {
            Err(e) => Err(e),
            Ok(()) => {
                let ghost before = self.bytes();
                proof {
                    lemma_le_bytes_len(value as u64 as nat, 8);
                }
                bytes_put_i64_le(&mut self.raw_buffer.buf, value);
                self.step_position(8);
                assert(self.bytes() =~= before + le_bytes(value as u64 as nat, 8));
                Ok(())
            },
        }
    }

    /// Writes an unsigned 64-bit integer, little-endian.
    pub fn set_u64(&mut self, value: u64) -> (r: Result<(), CodecError>)
        requires
            old(self).wf(),
            old(self).bytes().len() + 8 <= isize::MAX,
        ensures
            final(self).wrote(old(self), types::U64, le_bytes(value as nat, 8), r),
            final(self).bytes().len() == old(self).bytes().len() + if r is Ok { 8nat } else { 0nat },
            *final(final(self).raw_buffer) == *final(old(self).raw_buffer),
    {
        match self.data_type_check(types::U64) {
            Err(e) => Err(e),
            Ok(()) => {
                let ghost before = self.bytes();
                proof {
                    lemma_le_bytes_len(value as nat, 8);
                }
                bytes_put_u64_le(&mut self.raw_buffer.buf, value);
                self.step_position(8);
                assert(self.bytes() =~= before + le_bytes(value as nat, 8));
                Ok(())
            },
        }
    }

    /// Writes a 32-bit float, given by its IEEE 754 bit pattern, little-endian.
    pub fn set_f32(&mut self, value: u32) -> (r: Result<(), CodecError>)
        requires
            old(self).wf(),
            old(self).bytes().len() + 4 <= isize::MAX,
        ensures
            final(self).wrote(old(self), types::F32, le_bytes(value as nat, 4), r),
            final(self).bytes().len() == old(self).bytes().len() + if r is Ok { 4nat } else { 0nat },
            *final(final(self).raw_buffer) == *final(old(self).raw_buffer),
    {
        match self.data_type_check(types::F32) {
            Err(e) => Err(e),
            Ok(()) => {
                let ghost before = self.bytes();
                proof {
                    lemma_le_bytes_len(value as nat, 4);
                }
                bytes_put_u32_le(&mut self.raw_buffer.buf, value);
                self.step_position(4);
                assert(self.bytes() =~= before + le_bytes(value as nat, 4));
                Ok(())
            },
        }
    }

    /// Writes a 64-bit float, given by its IEEE 754 bit pattern, little-endian.
    pub fn set_f64(&mut self, value: u64) -> (r: Result<(), CodecError>)
        requires
            old(self).wf(),
            old(self).bytes().len() + 8 <= isize::MAX,
        ensures
            final(self).wrote(old(self), types::F64, le_bytes(value as nat, 8), r),
            final(self).bytes().len() == old(self).bytes().len() + if r is Ok { 8nat } else { 0nat },
            *final(final(self).raw_buffer) == *final(old(self).raw_buffer),
    {
        match self.data_type_check(types::F64) {
            Err(e) => Err(e),
            Ok(()) => {
                let ghost before = self.bytes();
                proof {
                    lemma_le_bytes_len(value as nat, 8);
                }
                bytes_put_u64_le(&mut self.raw_buffer.buf, value);
                self.step_position(8);
                assert(self.bytes() =~= before + le_bytes(value as nat, 8));
                Ok(())
            },
        }
    }

    /// Writes a string: a length header, then its UTF-8 bytes.
    pub fn set_str(&mut self, value: &str) -> (r: Result<(), CodecError>)
        requires
            old(self).wf(),
            old(self).bytes().len() + var_field(value.spec_bytes()).len() <= isize::MAX,
        ensures
            final(self).wrote(old(self), types::STRING, var_field(value.spec_bytes()), r),
            final(self).bytes().len() == old(self).bytes().len() + if r is Ok {
                lenenc_len(value.spec_bytes().len() as u64) + value.spec_bytes().len()
            } else {
                0nat
            },
            *final(final(self).raw_buffer) == *final(old(self).raw_buffer),
    {
        let s = value.as_bytes();
        self.set_bytes(s, types::STRING)
    }

    /// Writes a binary value: a length header, then the bytes as they are.
    pub fn set_binary(&mut self, value: &[u8]) -> (r: Result<(), CodecError>)
        requires
            old(self).wf(),
            old(self).bytes().len() + var_field(value@).len() <= isize::MAX,
        ensures
            final(self).wrote(old(self), types::BINARY, var_field(value@), r),
            final(self).bytes().len() == old(self).bytes().len() + if r is Ok {
                lenenc_len(value@.len() as u64) + value@.len()
            } else {
                0nat
            },
            *final(final(self).raw_buffer) == *final(old(self).raw_buffer),
    {
        self.set_bytes(value, types::BINARY)
    }

    fn set_bytes(&mut self, value: &[u8], data_type_id: u8) -> (r: Result<(), CodecError>)
        requires
            old(self).wf(),
            old(self).bytes().len() + var_field(value@).len() <= isize::MAX,
        ensures
            final(self).wrote(old(self), data_type_id, var_field(value@), r),
            final(self).bytes().len() == old(self).bytes().len() + if r is Ok {
                lenenc_len(value@.len() as u64) + value@.len()
            } else {
                0nat
            },
            *final(final(self).raw_buffer) == *final(old(self).raw_buffer),
    {
        proof {
            lemma_lenenc_shape(value@.len() as u64);
        }
        match self.data_type_check(data_type_id) {
            Err(e) => Err(e),
            Ok(()) => {
                let ghost before = self.bytes();
                let len: usize = value.len();
                let len_length: usize = write_lenenc_int(len as u64, &mut self.raw_buffer.buf);
                bytes_put_slice(&mut self.raw_buffer.buf, value);
                self.step_position(len + len_length);
                assert(self.bytes() =~= before + var_field(value@));
                Ok(())
            },
        }
    }

    /// Writes the next field from raw bytes, whatever its tag. For a
    /// variable-length field the bytes are the payload; for a scalar they
    /// are the slot itself and must have the width of the tag, else the
    /// write is refused as a mismatch.
    pub fn set_bytes_raw(&mut self, value: &[u8]) -> (r: Result<(), CodecError>)
        requires
            old(self).wf(),
            old(self).bytes().len() + raw_field(old(self).tags(), old(self).index(), value@).len()
                <= isize::MAX,
        ensures
            *final(final(self).raw_buffer) == *final(old(self).raw_buffer),
            final(self).wf(),
            final(self).tags() == old(self).tags(),
            old(self).index() >= old(self).tags().len() ==> final(self).wrote(
                old(self),
                types::BOOL,
                value@,
                r,
            ),
            old(self).index() < old(self).tags().len() ==> {
                let tag = old(self).tags()[old(self).index() as int];
                if is_variable(tag) {
                    final(self).wrote(old(self), tag, var_field(value@), r)
                } else if width(tag) != value@.len() {
                    &&& r == Err::<(), CodecError>(CodecError::SchemaMismatch)
                    &&& final(self).unchanged(old(self))
                } else {
                    final(self).wrote(old(self), tag, value@, r)
                }
            },
    {
        proof {
            lemma_lenenc_shape(value@.len() as u64);
        }
        if self.write_field_step >= self.data_types.len() {
            return Err(CodecError::SequentialWriteViolation);
        }
        let data_type_id: u8 = self.data_types[self.write_field_step];
        if data_type_id >= types::BINARY {
            self.set_bytes(value, data_type_id)
        } else {
            let len: usize = width_of(data_type_id);
            if len != value.len() {
                return Err(CodecError::SchemaMismatch);
            }
            match self.data_type_check(data_type_id) {
                Err(e) => Err(e),
                Ok(()) => {
                    bytes_put_slice(&mut self.raw_buffer.buf, value);
                    self.step_position(len);
                    Ok(())
                },
            }
        }
    }
}

/// A write after the last declared field is a sequence violation and
/// changes nothing, whatever is written.
pub proof fn lemma_write_past_end(
    post: &BufferWriter,
    pre: &BufferWriter,
    tag: u8,
    encoded: Seq<u8>,
    r: Result<(), CodecError>,
)
    requires
        post.wrote(pre, tag, encoded, r),
        pre.index() >= pre.tags().len(),
    ensures
        r == Err::<(), CodecError>(CodecError::SequentialWriteViolation),
        post.unchanged(pre),
{
}

/// A write that succeeds wrote the field that was next in the tag list,
/// under the tag declared for it.
pub proof fn lemma_write_in_order(
    post: &BufferWriter,
    pre: &BufferWriter,
    tag: u8,
    encoded: Seq<u8>,
    r: Result<(), CodecError>,
)
    requires
        post.wrote(pre, tag, encoded, r),
    ensures
        r is Ok <==> pre.index() < pre.tags().len() && pre.tags()[pre.index() as int] == tag,
        r is Ok ==> post.index() == pre.index() + 1,
        r is Err ==> post.unchanged(pre),
{
}

} // verus!
