//! A typed facade over the codec for one schema, as the generator renders
//! it: named getters and setters that delegate by index, and an entity that
//! is written and parsed whole.
//!
//! | index | field     | type   |
//! |-------|-----------|--------|
//! | 0     | timestamp | u64    |
//! | 1     | index     | u8     |
//! | 2     | group     | string |
//! | 3     | service   | i32    |
//! | 4     | count     | i64    |

use crate::buffer::{offsets_for, Buffer};
use crate::encoding::{le_bytes, lemma_le_bytes_len, lemma_lenenc_shape};
use crate::error::CodecError;
use crate::layout::{scalar_value, string_bytes, var_field};
use crate::reader::BufferReader;
use crate::record::{
    encode_record, lemma_record_push, lemma_record_round_trip, read_record, record_offsets,
    tags_of, FieldValue,
};
use crate::types;
use crate::writer::BufferWriter;
use vstd::prelude::*;
use vstd::string::*;
use vstd::utf8::encode_utf8_decode_utf8;

verus! {

/// The index of each field.
pub const INDEX_TIMESTAMP: usize = 0;

pub const INDEX_INDEX: usize = 1;

pub const INDEX_GROUP: usize = 2;

pub const INDEX_SERVICE: usize = 3;

pub const INDEX_COUNT: usize = 4;

/// The tag of each field, in field order.
pub const FIELD_TYPE: [u8; 5] = [types::U64, types::U8, types::STRING, types::I32, types::I64];

/// The tag list of the schema.
pub open spec fn field_tags() -> Seq<u8> {
    seq![types::U64, types::U8, types::STRING, types::I32, types::I64]
}

/// The tag list of the schema, as the views take it.
pub fn field_types() -> (t: &'static [u8])
    ensures
        t@ == field_tags(),
{
    let t: &'static [u8; 5] = &FIELD_TYPE;
    assert(t@ =~= field_tags());
    t.as_slice()
}

/// Named getters over a reader of the schema.
pub struct FieldReader<'a> {
    reader: BufferReader<'a, 'static>,
}

impl<'a> FieldReader<'a> {
    /// The bytes that the getters read.
    pub closed spec fn bytes(&self) -> Seq<u8> {
        self.reader.bytes()
    }

    /// The offsets that the getters go by.
    pub closed spec fn offsets(&self) -> Seq<usize> {
        self.reader.offsets()
    }

    /// The reader works on the schema's tag list.
    pub closed spec fn wf(&self) -> bool {
        self.reader.tags() == field_tags()
    }

    /// What a scalar getter finds at `index` under `tag`.
    pub open spec fn scalar(&self, index: usize, tag: u8) -> Result<nat, CodecError> {
        scalar_value(self.bytes(), self.offsets(), field_tags(), index as int, tag)
    }

    /// Opens the facade on a buffer; refused as the reader is.
    pub fn new(b: &'a mut Buffer) -> (r: Result<Self, CodecError>)
        ensures
            final(b)@ == old(b)@,
            final(b).wf() == old(b).wf(),
            match r {
                Ok(reader) => {
                    &&& offsets_for(old(b).offsets(), old(b)@, field_tags()) == Ok::<
                        Seq<usize>,
                        CodecError,
                    >(reader.offsets())
                    &&& reader.wf()
                    &&& reader.bytes() == old(b)@
                    &&& final(b).offsets() == reader.offsets()
                },
                Err(e) => {
                    &&& offsets_for(old(b).offsets(), old(b)@, field_tags()) == Err::<
                        Seq<usize>,
                        CodecError,
                    >(e)
                    &&& final(b).offsets() == Seq::<usize>::empty()
                },
            },
    {
        match b.as_reader(field_types()) {
            Err(e) => Err(e),
            Ok(reader) => Ok(FieldReader { reader }),
        }
    }

    /// Reads field 0, the timestamp.
    pub fn get_timestamp(&mut self) -> (r: Result<u64, CodecError>)
        requires
            old(self).wf(),
        ensures
            *final(self) == *old(self),
            r == match old(self).scalar(INDEX_TIMESTAMP, types::U64) {
                Ok(n) => Ok::<u64, CodecError>(n as u64),
                Err(e) => Err::<u64, CodecError>(e),
            },
    {
        self.reader.get_u64(0)
    }

    /// Reads field 1, the index.
    pub fn get_index(&mut self) -> (r: Result<u8, CodecError>)
        requires
            old(self).wf(),
        ensures
            *final(self) == *old(self),
            r == match old(self).scalar(INDEX_INDEX, types::U8) {
                Ok(n) => Ok::<u8, CodecError>(n as u8),
                Err(e) => Err::<u8, CodecError>(e),
            },
    {
        self.reader.get_u8(1)
    }

    /// Reads field 2, the group, as a view into the buffer.
    pub fn get_group(&mut self) -> (r: Result<&str, CodecError>)
        requires
            old(self).wf(),
        ensures
            *final(self) == *old(self),
            match r {
                Ok(s) => string_bytes(
                    old(self).bytes(),
                    old(self).offsets(),
                    field_tags(),
                    INDEX_GROUP as int,
                ) == Ok::<Seq<u8>, CodecError>(s.spec_bytes()),
                Err(e) => string_bytes(
                    old(self).bytes(),
                    old(self).offsets(),
                    field_tags(),
                    INDEX_GROUP as int,
                ) == Err::<Seq<u8>, CodecError>(e),
            },
    {
        self.reader.get_str(2)
    }

    /// Reads field 3, the service.
    pub fn get_service(&mut self) -> (r: Result<i32, CodecError>)
        requires
            old(self).wf(),
        ensures
            *final(self) == *old(self),
            r == match old(self).scalar(INDEX_SERVICE, types::I32) {
                Ok(n) => Ok::<i32, CodecError>(n as u32 as i32),
                Err(e) => Err::<i32, CodecError>(e),
            },
    {
        self.reader.get_i32(3)
    }

    /// Reads field 4, the count.
    pub fn get_count(&mut self) -> (r: Result<i64, CodecError>)
        requires
            old(self).wf(),
        ensures
            *final(self) == *old(self),
            r == match old(self).scalar(INDEX_COUNT, types::I64) {
                Ok(n) => Ok::<i64, CodecError>(n as u64 as i64),
                Err(e) => Err::<i64, CodecError>(e),
            },
    {
        self.reader.get_i64(4)
    }
}

/// Named setters over a writer of the schema. Each setter writes only when
/// its field is the next one; `writer_pos` counts the setters that were let
/// through.
pub struct FieldWriter<'a> {
    pub writer: BufferWriter<'a, 'static>,
    pub writer_pos: usize,
}

impl<'a> FieldWriter<'a> {
    /// The writer is sound and works on the schema's tag list.
    pub open spec fn wf(&self) -> bool {
        &&& self.writer.wf()
        &&& self.writer.tags() == field_tags()
    }

    /// What the setter of field `index` does to a facade that stood at
    /// `pre`, for a call that writes `encoded` under `tag`. Out of turn it
    /// is a sequence violation and nothing changes. In turn the position
    /// moves on and the write is the writer's.
    pub open spec fn set(
        &self,
        pre: &Self,
        index: usize,
        tag: u8,
        encoded: Seq<u8>,
        r: Result<(), CodecError>,
    ) -> bool {
        &&& self.wf()
        &&& if pre.writer_pos != index {
            &&& r == Err::<(), CodecError>(CodecError::SequentialWriteViolation)
            &&& self.writer_pos == pre.writer_pos
            &&& self.writer.unchanged(&pre.writer)
        } else {
            &&& self.writer_pos == index + 1
            &&& self.writer.wrote(&pre.writer, tag, encoded, r)
        }
    }

    /// Opens the facade on a buffer, at field 0.
    pub fn new(b: &'a mut Buffer) -> (w: Self)
        requires
            old(b).wf(),
        ensures
            w.wf(),
            w.writer_pos == 0,
            w.writer.index() == 0,
            w.writer.bytes() == old(b)@,
            w.writer.offsets() == Seq::<usize>::empty(),
            *final(w.writer.raw_buffer) == *final(b),
    {
        let writer = b.as_writer(field_types());
        FieldWriter { writer, writer_pos: 0 }
    }

    /// Writes field 0, the timestamp.
    pub fn set_timestamp(&mut self, timestamp: u64) -> (r: Result<(), CodecError>)
        requires
            old(self).wf(),
            old(self).writer.bytes().len() + 8 <= isize::MAX,
        ensures
            final(self).set(
                old(self),
                INDEX_TIMESTAMP,
                types::U64,
                le_bytes(timestamp as nat, 8),
                r,
            ),
            *final(final(self).writer.raw_buffer) == *final(old(self).writer.raw_buffer),
    {
        if self.writer_pos == 0 {
            self.writer_pos += 1;
            self.writer.set_u64(timestamp)
        } else {
            Err(CodecError::SequentialWriteViolation)
        }
    }

    /// Writes field 1, the index.
    pub fn set_index(&mut self, index: u8) -> (r: Result<(), CodecError>)
        requires
            old(self).wf(),
            old(self).writer.bytes().len() + 1 <= isize::MAX,
        ensures
            final(self).set(old(self), INDEX_INDEX, types::U8, seq![index], r),
            *final(final(self).writer.raw_buffer) == *final(old(self).writer.raw_buffer),
    {
        if self.writer_pos == 1 {
            self.writer_pos += 1;
            self.writer.set_u8(index)
        } else {
            Err(CodecError::SequentialWriteViolation)
        }
    }

    /// Writes field 2, the group.
    pub fn set_group(&mut self, group: &str) -> (r: Result<(), CodecError>)
        requires
            old(self).wf(),
            old(self).writer.bytes().len() + var_field(group.spec_bytes()).len() <= isize::MAX,
        ensures
            final(self).set(
                old(self),
                INDEX_GROUP,
                types::STRING,
                var_field(group.spec_bytes()),
                r,
            ),
            *final(final(self).writer.raw_buffer) == *final(old(self).writer.raw_buffer),
    {
        if self.writer_pos == 2 {
            self.writer_pos += 1;
            self.writer.set_str(group)
        } else {
            Err(CodecError::SequentialWriteViolation)
        }
    }

    /// Writes field 3, the service.
    pub fn set_service(&mut self, service: i32) -> (r: Result<(), CodecError>)
        requires
            old(self).wf(),
            old(self).writer.bytes().len() + 4 <= isize::MAX,
        ensures
            final(self).set(
                old(self),
                INDEX_SERVICE,
                types::I32,
                le_bytes(service as u32 as nat, 4),
                r,
            ),
            *final(final(self).writer.raw_buffer) == *final(old(self).writer.raw_buffer),
    {
        if self.writer_pos == 3 {
            self.writer_pos += 1;
            self.writer.set_i32(service)
        } else {
            Err(CodecError::SequentialWriteViolation)
        }
    }

    /// Writes field 4, the count.
    pub fn set_count(&mut self, count: i64) -> (r: Result<(), CodecError>)
        requires
            old(self).wf(),
            old(self).writer.bytes().len() + 8 <= isize::MAX,
        ensures
            final(self).set(
                old(self),
                INDEX_COUNT,
                types::I64,
                le_bytes(count as u64 as nat, 8),
                r,
            ),
            *final(final(self).writer.raw_buffer) == *final(old(self).writer.raw_buffer),
    {
        if self.writer_pos == 4 {
            self.writer_pos += 1;
            self.writer.set_i64(count)
        } else {
            Err(CodecError::SequentialWriteViolation)
        }
    }
}

/// A named setter that is called before the setters of the fields ahead of
/// it fails with a sequence violation and changes nothing.
pub proof fn lemma_setter_out_of_turn(
    post: &FieldWriter,
    pre: &FieldWriter,
    index: usize,
    tag: u8,
    encoded: Seq<u8>,
    r: Result<(), CodecError>,
)
    requires
        post.set(pre, index, tag, encoded, r),
        pre.writer_pos != index,
    ensures
        r == Err::<(), CodecError>(CodecError::SequentialWriteViolation),
        post.writer.unchanged(&pre.writer),
        post.writer_pos == pre.writer_pos,
{
}

/// One record of the schema.
#[derive(Clone, Debug)]
pub struct Entity<'a> {
    pub timestamp: u64,
    pub index: u8,
    pub group: &'a str,
    pub service: i32,
    pub count: i64,
}

impl<'a> Entity<'a> {
    /// The entity as the values of its fields, in field order.
    pub open spec fn fields(&self) -> Seq<FieldValue> {
        seq![
            FieldValue::U64(self.timestamp),
            FieldValue::U8(self.index),
            FieldValue::Str(self.group@),
            FieldValue::I32(self.service),
            FieldValue::I64(self.count),
        ]
    }

    /// Appends the entity to the buffer as one record. The cached offsets
    /// afterwards are those of this record.
    pub fn to_buffer(&self, b: &mut Buffer) -> (r: Result<(), CodecError>)
        requires
            old(b).wf(),
            old(b)@.len() + 21 + var_field(self.group.spec_bytes()).len() <= isize::MAX,
        ensures
            r == Ok::<(), CodecError>(()),
            final(b).wf(),
            final(b)@ == old(b)@ + encode_record(self.fields()),
            final(b).offsets() == record_offsets(old(b)@.len(), self.fields()),
    {
        let ghost start = b@;
        let ghost fs = self.fields();
        proof {
            lemma_lenenc_shape(self.group.spec_bytes().len() as u64);
            lemma_le_bytes_len(self.timestamp as nat, 8);
            lemma_le_bytes_len(self.service as u32 as nat, 4);
            lemma_le_bytes_len(self.count as u64 as nat, 8);
            assert(fs.take(0) =~= Seq::<FieldValue>::empty());
            lemma_record_push(start.len(), fs.take(0), fs[0]);
            lemma_record_push(start.len(), fs.take(1), fs[1]);
            lemma_record_push(start.len(), fs.take(2), fs[2]);
            lemma_record_push(start.len(), fs.take(3), fs[3]);
            lemma_record_push(start.len(), fs.take(4), fs[4]);
            assert(fs.take(0).push(fs[0]) =~= fs.take(1));
            assert(fs.take(1).push(fs[1]) =~= fs.take(2));
            assert(fs.take(2).push(fs[2]) =~= fs.take(3));
            assert(fs.take(3).push(fs[3]) =~= fs.take(4));
            assert(fs.take(4).push(fs[4]) =~= fs);
        }
        let mut writer = b.as_writer(field_types());
        writer.set_u64(self.timestamp)?;
        assert(writer.bytes() =~= start + encode_record(fs.take(1)));
        writer.set_u8(self.index)?;
        assert(writer.bytes() =~= start + encode_record(fs.take(2)));
        writer.set_str(self.group)?;
        assert(writer.bytes() =~= start + encode_record(fs.take(3)));
        writer.set_i32(self.service)?;
        assert(writer.bytes() =~= start + encode_record(fs.take(4)));
        writer.set_i64(self.count)?;
        assert(writer.bytes() =~= start + encode_record(fs));
        Ok(())
    }

    /// Reads the entity from the buffer, field by field. The first read
    /// that fails decides the error.
    pub fn parse(b: &'a mut Buffer) -> (r: Result<Self, CodecError>)
        ensures
            final(b)@ == old(b)@,
            final(b).wf() == old(b).wf(),
            match offsets_for(old(b).offsets(), old(b)@, field_tags()) {
                Err(e) => r == Err::<Self, CodecError>(e),
                Ok(offsets) => match r {
                    Ok(entity) => read_record(old(b)@, offsets, field_tags(), 5) == Ok::<
                        Seq<FieldValue>,
                        CodecError,
                    >(entity.fields()),
                    Err(e) => read_record(old(b)@, offsets, field_tags(), 5) == Err::<
                        Seq<FieldValue>,
                        CodecError,
                    >(e),
                },
            },
    {
        let reader = b.as_reader(field_types())?;
        proof {
            reveal_with_fuel(read_record, 6);
        }
        let timestamp = reader.get_u64(0)?;
        let index = reader.get_u8(1)?;
        let group = reader.get_str(2)?;
        proof {
            encode_utf8_decode_utf8(group@);
        }
        let service = reader.get_i32(3)?;
        let count = reader.get_i64(4)?;
        let entity = Entity { timestamp, index, group, service, count };
        assert(read_record(reader.bytes(), reader.offsets(), field_tags(), 5).unwrap()
            =~= entity.fields());
        Ok(entity)
    }
}

/// An entity that was written behind `prefix` is parsed back as it was:
/// the five reads, in order, give its five fields.
pub proof fn lemma_entity_round_trip(entity: Entity, prefix: Seq<u8>)
    requires
        prefix.len() + encode_record(entity.fields()).len() <= usize::MAX,
    ensures
        read_record(
            prefix + encode_record(entity.fields()),
            record_offsets(prefix.len(), entity.fields()),
            field_tags(),
            5,
        ) == Ok::<Seq<FieldValue>, CodecError>(entity.fields()),
{
    let fs = entity.fields();
    lemma_record_round_trip(prefix, fs, 5);
    assert(tags_of(fs) =~= field_tags());
    assert(fs.take(5) =~= fs);
}

} // verus!
