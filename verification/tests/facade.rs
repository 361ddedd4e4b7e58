use bytes::BytesMut;
use serbuffer::buffer::Buffer;
use serbuffer::error::CodecError;
use serbuffer::gen_demo::{
    field_types, Entity, FieldReader, FieldWriter, FIELD_TYPE, INDEX_COUNT, INDEX_GROUP,
    INDEX_INDEX, INDEX_SERVICE, INDEX_TIMESTAMP,
};
use serbuffer::types;
use std::collections::hash_map::DefaultHasher;
use std::hash::{Hash, Hasher};

#[test]
fn facade_schema() {
    assert_eq!(FIELD_TYPE, [types::U64, types::U8, types::STRING, types::I32, types::I64]);
    assert_eq!(field_types(), &FIELD_TYPE[..]);
    assert_eq!(
        (INDEX_TIMESTAMP, INDEX_INDEX, INDEX_GROUP, INDEX_SERVICE, INDEX_COUNT),
        (0, 1, 2, 3, 4)
    );
}

#[test]
fn facade_writes_in_field_order_only() {
    let mut buffer = Buffer::new();
    {
        let mut w = FieldWriter::new(&mut buffer);
        // Field 2 before fields 0 and 1.
        assert_eq!(w.set_group("grp"), Err(CodecError::SequentialWriteViolation));
        assert_eq!(w.set_count(1), Err(CodecError::SequentialWriteViolation));
        assert_eq!(w.writer_pos, 0);
        w.set_timestamp(1000).unwrap();
        assert_eq!(w.set_timestamp(1000), Err(CodecError::SequentialWriteViolation));
        assert_eq!(w.set_service(3), Err(CodecError::SequentialWriteViolation));
        w.set_index(7).unwrap();
        w.set_group("grp").unwrap();
        w.set_service(-5).unwrap();
        w.set_count(-9).unwrap();
        assert_eq!(w.set_count(1), Err(CodecError::SequentialWriteViolation));
        assert_eq!(w.writer_pos, 5);
    }
    assert_eq!(buffer.len(), 8 + 1 + 1 + 3 + 4 + 8);
    let mut r = FieldReader::new(&mut buffer).unwrap();
    assert_eq!(r.get_count(), Ok(-9));
    assert_eq!(r.get_service(), Ok(-5));
    assert_eq!(r.get_group(), Ok("grp"));
    assert_eq!(r.get_index(), Ok(7));
    assert_eq!(r.get_timestamp(), Ok(1000));
}

#[test]
fn entity_round_trip() {
    let entity = Entity { timestamp: u64::MAX, index: 9, group: "", service: i32::MIN, count: 42 };
    let mut buffer = Buffer::new();
    assert_eq!(entity.to_buffer(&mut buffer), Ok(()));
    assert_eq!(buffer.len(), 8 + 1 + 1 + 4 + 8);
    let wire = BytesMut::from(buffer.as_slice());
    {
        let back = Entity::parse(&mut buffer).unwrap();
        assert_eq!(back.timestamp, u64::MAX);
        assert_eq!(back.index, 9);
        assert_eq!(back.group, "");
        assert_eq!(back.service, i32::MIN);
        assert_eq!(back.count, 42);
        let copy = back.clone();
        assert_eq!(copy.count, 42);
    }
    let mut received = Buffer::from(wire);
    let back = Entity::parse(&mut received).unwrap();
    assert_eq!(back.service, i32::MIN);
    assert_eq!(back.count, 42);
}

#[test]
fn entity_parse_failures() {
    let mut empty = Buffer::new();
    assert_eq!(Entity::parse(&mut empty).err(), Some(CodecError::UnexpectedEnd));
    let mut bad = Buffer::from(BytesMut::from(&[0u8, 0, 0, 0, 0, 0, 0, 0, 1, 0xFF][..]));
    assert_eq!(Entity::parse(&mut bad).err(), Some(CodecError::InvalidEncoding));
    assert_eq!(FieldReader::new(&mut bad).err(), Some(CodecError::InvalidEncoding));
    let mut text = vec![0u8, 0, 0, 0, 0, 0, 0, 0, 1, 2, 0xC3, 0x28];
    text.extend_from_slice(&[0u8; 12]);
    let mut not_utf8 = Buffer::from(BytesMut::from(&text[..]));
    assert_eq!(Entity::parse(&mut not_utf8).err(), Some(CodecError::InvalidEncoding));
    let mut r = FieldReader::new(&mut not_utf8).unwrap();
    assert_eq!(r.get_group(), Err(CodecError::InvalidEncoding));
    assert_eq!(r.get_index(), Ok(1));
}

#[test]
fn buffers_compare_and_clone_by_their_bytes() {
    let mut a = Buffer::new();
    a.as_writer(&[types::U16]).set_u16(513).unwrap();
    let b = Buffer::from(BytesMut::from(&[1u8, 2][..]));
    assert!(a == b);
    let c = a.clone();
    assert!(c == a);
    assert_eq!(c.as_slice(), &[1u8, 2][..]);
    let d = Buffer::from(BytesMut::from(&[1u8, 3][..]));
    assert!(a != d);
    let e = Buffer::from(BytesMut::from(&[1u8][..]));
    assert!(a != e);
    assert!(serbuffer::buffer::slices_equal(&[], &[]));
    assert!(!serbuffer::buffer::slices_equal(&[1], &[]));
}

fn hash_of(b: &Buffer) -> u64 {
    let mut h = DefaultHasher::new();
    b.hash(&mut h);
    h.finish()
}

#[test]
fn buffers_hash_by_their_bytes() {
    let mut a = Buffer::new();
    a.as_writer(&[types::U16]).set_u16(513).unwrap();
    let b = Buffer::from(BytesMut::from(&[1u8, 2][..]));
    let c = Buffer::from(BytesMut::from(&[2u8, 1][..]));
    assert_eq!(hash_of(&a), hash_of(&b));
    assert_ne!(hash_of(&a), hash_of(&c));
    let mut h = DefaultHasher::new();
    [1u8, 2][..].hash(&mut h);
    assert_eq!(hash_of(&a), h.finish());
}
