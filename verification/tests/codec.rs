use bytes::BytesMut;
use serbuffer::buffer::{scan_offsets, Buffer};
use serbuffer::encoding::{
    decode_lenenc_int, lenenc_size, read_le, read_lenenc_int, try_write_lenenc_int,
    write_lenenc_int,
};
use serbuffer::error::CodecError;
use serbuffer::metadata::FieldMetadata;
use serbuffer::types;

#[test]
pub fn lenenc_int_0_test() {
    let mut bs = BytesMut::new();

    let len = write_lenenc_int(0, &mut bs);
    assert_eq!(len, 1);
    let len = write_lenenc_int(251 - 1, &mut bs);
    assert_eq!(len, 1);

    let len = write_lenenc_int(251, &mut bs);
    assert_eq!(len, 3);
    let len = write_lenenc_int(65_536 - 1, &mut bs);
    assert_eq!(len, 3);

    let len = write_lenenc_int(65_536, &mut bs);
    assert_eq!(len, 4);
    let len = write_lenenc_int(16_777_216 - 1, &mut bs);
    assert_eq!(len, 4);

    let len = write_lenenc_int(16_777_216, &mut bs);
    assert_eq!(len, 9);

    let mut offset = 0;
    let v_read = read_lenenc_int(&bs, offset).unwrap();
    assert_eq!(v_read.0, 0);
    offset += v_read.1;
    let v_read = read_lenenc_int(&bs, offset).unwrap();
    assert_eq!(v_read.0, 251 - 1);

    offset += v_read.1;
    let v_read = read_lenenc_int(&bs, offset).unwrap();
    assert_eq!(v_read.0, 251);
    offset += v_read.1;
    let v_read = read_lenenc_int(&bs, offset).unwrap();
    assert_eq!(v_read.0, 65_536 - 1);

    offset += v_read.1;
    let v_read = read_lenenc_int(&bs, offset).unwrap();
    assert_eq!(v_read.0, 65_536);
    offset += v_read.1;
    let v_read = read_lenenc_int(&bs, offset).unwrap();
    assert_eq!(v_read.0, 16_777_216 - 1);

    offset += v_read.1;
    let v_read = read_lenenc_int(&bs, offset).unwrap();
    assert_eq!(v_read.0, 16_777_216);
}

#[test]
pub fn buffer_test() {
    let mut buffer = Buffer::new();
    let data_types = vec![
        types::BOOL,
        types::I8,
        types::U8,
        types::I16,
        types::U16,
        types::I32,
        types::U32,
        types::I64,
        types::U64,
        types::F32,
        types::F64,
        types::STRING,
        types::STRING,
        types::STRING,
        types::I32,
    ];

    let strs = vec![
        "aaaa-bbbb-cccc-dddd",
        "cccc-bbbb-aaaa",
        "aaaa-bbbb-cccc-dddd-eeee",
        "dddd-cccc-bbbb-aaaa",
        "bbbb",
    ];
    for i in 0..strs.len() {
        let uuid1 = strs[i];
        let uuid2 = uuid::Uuid::new_v4().to_string();
        let uuid2 = uuid2.as_str();

        let mut writer = buffer.as_writer(&data_types);

        writer.set_bool(i % 2 == 0).unwrap();

        writer.set_i8((10 + i) as i8).unwrap();
        writer.set_u8((11 + i) as u8).unwrap();

        writer.set_i16((12 + i) as i16).unwrap();
        writer.set_u16((13 + i) as u16).unwrap();

        writer.set_i32((14 + i) as i32).unwrap();
        writer.set_u32((15 + i) as u32).unwrap();

        writer.set_i64((16 + i) as i64).unwrap();
        writer.set_u64((17 + i) as u64).unwrap();

        writer.set_f32((18.001 + i as f32).to_bits()).unwrap();
        writer.set_f64((19.002 + i as f64).to_bits()).unwrap();

        writer.set_str(uuid1).unwrap();
        writer.set_str(uuid2).unwrap();
        writer.set_str("").unwrap();

        writer.set_i32((5 + i) as i32).unwrap();

        println!("{:?}", buffer.as_slice());

        let reader = buffer.as_reader(&data_types).unwrap();

        assert_eq!(reader.get_bool(0).unwrap(), i % 2 == 0);

        assert_eq!(reader.get_i8(1).unwrap(), (10 + i) as i8);
        assert_eq!(reader.get_u8(2).unwrap(), (11 + i) as u8);

        assert_eq!(reader.get_i16(3).unwrap(), (12 + i) as i16);
        assert_eq!(reader.get_u16(4).unwrap(), (13 + i) as u16);

        assert_eq!(reader.get_i32(5).unwrap(), (14 + i) as i32);
        assert_eq!(reader.get_u32(6).unwrap(), (15 + i) as u32);

        assert_eq!(reader.get_i64(7).unwrap(), (16 + i) as i64);
        assert_eq!(reader.get_u64(8).unwrap(), (17 + i) as u64);

        assert_eq!(f32::from_bits(reader.get_f32(9).unwrap()), 18.001 + i as f32);
        assert_eq!(f64::from_bits(reader.get_f64(10).unwrap()), 19.002 + i as f64);

        assert_eq!(reader.get_str(11).unwrap(), uuid1.to_string());
        assert_eq!(reader.get_str(12).unwrap(), uuid2.to_string());
        assert_eq!(reader.get_str(13).unwrap(), "".to_string());

        assert_eq!(reader.get_i32(14).unwrap(), (5 + i) as i32);
    }
}

#[test]
pub fn buf_extend_test() {
    let mut buffer0 = Buffer::new();
    let mut buffer1 = Buffer::new();

    let data_types0 = [
        types::I8,
        types::I16,
        types::I32,
        types::I64,
        types::F32,
        types::STRING,
        types::I32,
    ];
    let data_types1 = [
        types::U8,
        types::U16,
        types::U32,
        types::U64,
        types::F64,
        types::STRING,
        types::U32,
    ];

    let uuid1 = "b871544b-c044-495c-98ee-f5aa34660527".to_string();
    let uuid2 = "6af8fda0-e9fa-498b-829a-bb3c7b87554b".to_string();

    {
        let mut writer = buffer0.as_writer(&data_types0);

        writer.set_i8((10) as i8).unwrap();
        writer.set_i16((12) as i16).unwrap();
        writer.set_i32((14) as i32).unwrap();
        writer.set_i64((16) as i64).unwrap();
        writer.set_f32((18.001 as f32).to_bits()).unwrap();
        writer.set_str(uuid1.as_str()).unwrap();
        writer.set_i32((5) as i32).unwrap();
    }

    {
        let mut writer = buffer1.as_writer(&data_types1);

        writer.set_u8((11) as u8).unwrap();
        writer.set_u16((13) as u16).unwrap();
        writer.set_u32((15) as u32).unwrap();
        writer.set_u64((17) as u64).unwrap();
        writer.set_f64((19.002 as f64).to_bits()).unwrap();
        writer.set_str(uuid2.as_str()).unwrap();
        writer.set_u32((5) as u32).unwrap();
    }

    println!("{:?}", buffer0.as_slice());
    println!("{:?}", buffer1.as_slice());

    buffer0.extend(&buffer1).unwrap();
    println!("{:?}", buffer0.as_slice());

    let mut data_type_merge = data_types0.to_vec();
    data_type_merge.extend_from_slice(&data_types1);
    let reader = buffer0.as_reader(data_type_merge.as_slice()).unwrap();

    assert_eq!(reader.get_i8(0).unwrap(), (10) as i8);
    assert_eq!(reader.get_i16(1).unwrap(), (12) as i16);
    assert_eq!(reader.get_i32(2).unwrap(), (14) as i32);
    assert_eq!(reader.get_i64(3).unwrap(), (16) as i64);
    assert_eq!(f32::from_bits(reader.get_f32(4).unwrap()), 18.001 as f32);
    assert_eq!(reader.get_str(5).unwrap(), uuid1);
    assert_eq!(reader.get_i32(6).unwrap(), (5) as i32);

    assert_eq!(reader.get_u8(7).unwrap(), (11) as u8);
    assert_eq!(reader.get_u16(8).unwrap(), (13) as u16);
    assert_eq!(reader.get_u32(9).unwrap(), (15) as u32);
    assert_eq!(reader.get_u64(10).unwrap(), (17) as u64);
    assert_eq!(f64::from_bits(reader.get_f64(11).unwrap()), 19.002 as f64);
    assert_eq!(reader.get_str(12).unwrap(), uuid2);
    assert_eq!(reader.get_u32(13).unwrap(), (5) as u32);
}

#[test]
fn tag_widths_follow_the_width_code() {
    assert_eq!(types::len(types::BOOL), 1);
    assert_eq!(types::len(types::I8), 1);
    assert_eq!(types::len(types::U8), 1);
    assert_eq!(types::len(types::I16), 2);
    assert_eq!(types::len(types::U16), 2);
    assert_eq!(types::len(types::I32), 4);
    assert_eq!(types::len(types::U32), 4);
    assert_eq!(types::len(types::F32), 4);
    assert_eq!(types::len(types::I64), 8);
    assert_eq!(types::len(types::U64), 8);
    assert_eq!(types::len(types::F64), 8);
    assert_eq!(types::len(0b0000_0111), 128);
}

#[test]
fn tag_values_are_the_documented_bytes() {
    assert_eq!(types::BOOL, 0x00);
    assert_eq!(types::I8, 0x10);
    assert_eq!(types::U8, 0x20);
    assert_eq!(types::I16, 0x31);
    assert_eq!(types::U16, 0x41);
    assert_eq!(types::I32, 0x52);
    assert_eq!(types::U32, 0x72);
    assert_eq!(types::I64, 0x83);
    assert_eq!(types::U64, 0x93);
    assert_eq!(types::F32, 0xa2);
    assert_eq!(types::F64, 0xb3);
    assert_eq!(types::BINARY, 0xc0);
    assert_eq!(types::STRING, 0xc1);
}

#[test]
fn varint_boundaries_round_trip() {
    let values: [u64; 7] = [0, 250, 251, 65535, 65536, 16777215, 16777216];
    let sizes: [usize; 7] = [1, 1, 3, 3, 4, 4, 9];
    for k in 0..values.len() {
        let mut bs = BytesMut::new();
        let n = write_lenenc_int(values[k], &mut bs);
        assert_eq!(n, sizes[k]);
        assert_eq!(bs.len(), sizes[k]);
        assert_eq!(read_lenenc_int(&bs, 0), Ok((values[k], sizes[k])));
    }
}

#[test]
fn varint_headers_are_byte_exact() {
    let mut bs = BytesMut::new();
    write_lenenc_int(250, &mut bs);
    assert_eq!(&bs[..], &[250u8][..]);

    let mut bs = BytesMut::new();
    write_lenenc_int(251, &mut bs);
    assert_eq!(&bs[..], &[0xFCu8, 251, 0][..]);

    let mut bs = BytesMut::new();
    write_lenenc_int(0x012345, &mut bs);
    assert_eq!(&bs[..], &[0xFDu8, 0x45, 0x23, 0x01][..]);

    let mut bs = BytesMut::new();
    write_lenenc_int(0x0102030405060708, &mut bs);
    assert_eq!(&bs[..], &[0xFEu8, 8, 7, 6, 5, 4, 3, 2, 1][..]);

    let mut bs = BytesMut::new();
    write_lenenc_int(u64::MAX, &mut bs);
    assert_eq!(read_lenenc_int(&bs, 0), Ok((u64::MAX, 9)));
}

#[test]
fn varint_decode_errors() {
    assert_eq!(decode_lenenc_int(&[0xFF, 1, 2], 0), Err(CodecError::InvalidEncoding));
    assert_eq!(decode_lenenc_int(&[], 0), Err(CodecError::UnexpectedEnd));
    assert_eq!(decode_lenenc_int(&[1, 2], 2), Err(CodecError::UnexpectedEnd));
    assert_eq!(decode_lenenc_int(&[0xFC, 1], 0), Err(CodecError::UnexpectedEnd));
    assert_eq!(decode_lenenc_int(&[0xFD, 1, 2], 0), Err(CodecError::UnexpectedEnd));
    assert_eq!(decode_lenenc_int(&[0xFE, 1, 2, 3, 4, 5, 6, 7], 0), Err(CodecError::UnexpectedEnd));
    assert_eq!(decode_lenenc_int(&[0xFB], 0), Ok((251, 1)));
    assert_eq!(decode_lenenc_int(&[9, 0xFC, 0x34, 0x12], 1), Ok((0x1234, 3)));
    let bs = BytesMut::from(&[0xFFu8][..]);
    assert_eq!(read_lenenc_int(&bs, 0), Err(CodecError::InvalidEncoding));
}

#[test]
fn little_endian_reads() {
    assert_eq!(read_le(&[0x78, 0x56, 0x34, 0x12], 0, 4), 0x12345678);
    assert_eq!(read_le(&[0, 0x34, 0x12], 1, 2), 0x1234);
    assert_eq!(read_le(&[1, 2, 3], 1, 0), 0);
    assert_eq!(read_le(&[0xff; 8], 0, 8), u64::MAX);
}

#[test]
fn end_to_end_example() {
    let tags = [types::U64, types::U8, types::STRING, types::I32];
    let mut buffer = Buffer::new();
    {
        let mut writer = buffer.as_writer(&tags);
        writer.set_u64(1000).unwrap();
        writer.set_u8(7).unwrap();
        writer.set_str("grp").unwrap();
        writer.set_i32(-5).unwrap();
    }
    assert_eq!(buffer.len(), 17);
    assert_eq!(
        buffer.as_slice(),
        &[0xE8u8, 3, 0, 0, 0, 0, 0, 0, 7, 3, b'g', b'r', b'p', 0xFB, 0xFF, 0xFF, 0xFF][..]
    );
    let reader = buffer.as_reader(&tags).unwrap();
    assert_eq!(reader.get_i32(3), Ok(-5));
    assert_eq!(reader.get_str(2), Ok("grp"));
    assert_eq!(reader.get_u8(1), Ok(7));
    assert_eq!(reader.get_u64(0), Ok(1000));
}

#[test]
fn end_to_end_example_from_received_bytes() {
    let tags = [types::U64, types::U8, types::STRING, types::I32];
    let wire: [u8; 17] = [0xE8, 3, 0, 0, 0, 0, 0, 0, 7, 3, b'g', b'r', b'p', 0xFB, 0xFF, 0xFF, 0xFF];
    assert_eq!(scan_offsets(&wire, &tags), Ok(vec![0, 8, 9, 13]));
    let mut buffer = Buffer::from(BytesMut::from(&wire[..]));
    assert_eq!(buffer.len(), 17);
    let reader = buffer.as_reader(&tags).unwrap();
    assert_eq!(reader.get_u64(0), Ok(1000));
    assert_eq!(reader.get_u8(1), Ok(7));
    assert_eq!(reader.get_str(2), Ok("grp"));
    assert_eq!(reader.get_i32(3), Ok(-5));
}

#[test]
fn sequential_enforcement() {
    let tags = [types::U8, types::U16, types::U32];
    let mut buffer = Buffer::new();
    {
        let mut writer = buffer.as_writer(&tags);
        // The field declared third cannot be written first: the cursor
        // stands at field 0, which is declared with another tag.
        assert_eq!(writer.set_u32(9), Err(CodecError::SchemaMismatch));
        writer.set_u8(1).unwrap();
        writer.set_u16(2).unwrap();
        writer.set_u32(3).unwrap();
        assert_eq!(writer.set_u32(4), Err(CodecError::SequentialWriteViolation));
        assert_eq!(writer.set_u8(4), Err(CodecError::SequentialWriteViolation));
        assert_eq!(writer.set_str("x"), Err(CodecError::SequentialWriteViolation));
        assert_eq!(writer.set_bytes_raw(&[1]), Err(CodecError::SequentialWriteViolation));
    }
    assert_eq!(buffer.as_slice(), &[1u8, 2, 0, 3, 0, 0, 0][..]);
}

#[test]
fn writer_mismatch_changes_nothing() {
    let tags = [types::I16, types::BINARY];
    let mut buffer = Buffer::new();
    {
        let mut writer = buffer.as_writer(&tags);
        assert_eq!(writer.set_u16(1), Err(CodecError::SchemaMismatch));
        assert_eq!(writer.set_binary(&[1, 2]), Err(CodecError::SchemaMismatch));
        assert_eq!(writer.write_field_step, 0);
        writer.set_i16(-2).unwrap();
        assert_eq!(writer.set_str("no"), Err(CodecError::SchemaMismatch));
        assert_eq!(writer.write_field_step, 1);
        writer.set_binary(&[1, 2]).unwrap();
    }
    assert_eq!(buffer.as_slice(), &[0xFEu8, 0xFF, 2, 1, 2][..]);
}

#[test]
fn type_safety() {
    let tags = [types::U32, types::STRING, types::I32];
    let mut buffer = Buffer::new();
    {
        let mut writer = buffer.as_writer(&tags);
        writer.set_u32(77).unwrap();
        writer.set_str("text").unwrap();
        writer.set_i32(-1).unwrap();
    }
    let reader = buffer.as_reader(&tags).unwrap();
    assert_eq!(reader.get_i32(0), Err(CodecError::SchemaMismatch));
    assert_eq!(reader.get_u8(0), Err(CodecError::SchemaMismatch));
    assert_eq!(reader.get_f32(0), Err(CodecError::SchemaMismatch));
    assert_eq!(reader.get_i32(1), Err(CodecError::SchemaMismatch));
    assert_eq!(reader.get_binary(1), Err(CodecError::SchemaMismatch));
    assert_eq!(reader.get_str(0), Err(CodecError::SchemaMismatch));
    assert_eq!(reader.get_bool(2), Err(CodecError::SchemaMismatch));
    // A wider scalar than the bytes hold is an unexpected end first.
    assert_eq!(reader.get_u64(2), Err(CodecError::UnexpectedEnd));
    assert_eq!(reader.get_u32(0), Ok(77));
    assert_eq!(reader.get_i32(2), Ok(-1));
}

#[test]
fn reading_unwritten_fields() {
    let tags = [types::U8, types::U16, types::STRING];
    let mut buffer = Buffer::new();
    {
        let mut writer = buffer.as_writer(&tags);
        writer.set_u8(5).unwrap();
    }
    let reader = buffer.as_reader(&tags).unwrap();
    assert_eq!(reader.get_u8(0), Ok(5));
    assert_eq!(reader.get_u16(1), Err(CodecError::UnexpectedEnd));
    assert_eq!(reader.get_str(2), Err(CodecError::UnexpectedEnd));
    assert_eq!(reader.get_u8(3), Err(CodecError::UnexpectedEnd));
    assert_eq!(reader.get_bytes_raw(1), Err(CodecError::UnexpectedEnd));
}

#[test]
fn concatenation() {
    let mut a = Buffer::new();
    a.as_writer(&[types::U8]).set_u8(7).unwrap();
    let mut b = Buffer::new();
    b.as_writer(&[types::STRING]).set_str("x").unwrap();
    a.extend(&b).unwrap();
    assert_eq!(a.len(), 3);
    assert_eq!(a.as_slice(), &[7u8, 1, b'x'][..]);
    let tags = [types::U8, types::STRING];
    let reader = a.as_reader(&tags).unwrap();
    assert_eq!(reader.get_u8(0), Ok(7));
    assert_eq!(reader.get_str(1), Ok("x"));
}

#[test]
fn empty_variable_fields() {
    let tags = [types::STRING, types::BINARY, types::U16];
    let mut buffer = Buffer::new();
    {
        let mut writer = buffer.as_writer(&tags);
        writer.set_str("").unwrap();
        writer.set_binary(&[]).unwrap();
        writer.set_u16(0xBEEF).unwrap();
    }
    assert_eq!(buffer.as_slice(), &[0u8, 0, 0xEF, 0xBE][..]);
    {
        let reader = buffer.as_reader(&tags).unwrap();
        assert_eq!(reader.get_str(0), Ok(""));
        assert_eq!(reader.get_binary(1).unwrap().len(), 0);
        assert_eq!(reader.get_u16(2), Ok(0xBEEF));
    }
    let mut received = Buffer::from(BytesMut::from(buffer.as_slice()));
    let reader = received.as_reader(&tags).unwrap();
    assert_eq!(reader.get_str(0), Ok(""));
    assert_eq!(reader.get_binary(1), Ok(&[][..]));
    assert_eq!(reader.get_u16(2), Ok(0xBEEF));
}

#[test]
fn invalid_utf8() {
    let mut buffer = Buffer::new();
    buffer.as_writer(&[types::BINARY]).set_binary(&[0xFF, 0xFE]).unwrap();
    {
        let tags = [types::BINARY];
        let reader = buffer.as_reader(&tags).unwrap();
        assert_eq!(reader.get_binary(0), Ok(&[0xFFu8, 0xFE][..]));
    }
    let mut retagged = Buffer::from(BytesMut::from(buffer.as_slice()));
    let tags = [types::STRING];
    {
        let reader = retagged.as_reader(&tags).unwrap();
        assert_eq!(reader.get_str(0), Err(CodecError::InvalidEncoding));
        assert_eq!(reader.get_bytes_raw(0), Ok(&[0xFFu8, 0xFE][..]));
    }
    let mut reader = retagged.as_reader_mut(&tags).unwrap();
    assert_eq!(reader.get_str(0), Err(CodecError::InvalidEncoding));
}

#[test]
fn scan_failures_leave_no_reader() {
    let tags = [types::U8, types::STRING];
    let mut reserved = Buffer::from(BytesMut::from(&[1u8, 0xFF, 0, 0][..]));
    assert_eq!(reserved.as_reader(&tags).err(), Some(CodecError::InvalidEncoding));
    assert_eq!(reserved.as_reader_mut(&tags).err(), Some(CodecError::InvalidEncoding));
    // A corrected tag list can be tried on the same buffer.
    let fixed = [types::U8, types::U8, types::U16];
    let reader = reserved.as_reader(&fixed).unwrap();
    assert_eq!(reader.get_u8(1), Ok(0xFF));

    let mut short = Buffer::from(BytesMut::from(&[1u8, 5, b'a', b'b'][..]));
    assert_eq!(short.as_reader(&tags).err(), Some(CodecError::UnexpectedEnd));
    let mut cut = Buffer::from(BytesMut::from(&[1u8, 2, 3][..]));
    assert_eq!(cut.as_reader(&[types::U16, types::U16]).err(), Some(CodecError::UnexpectedEnd));
    let mut none = Buffer::from(BytesMut::from(&[1u8][..]));
    assert_eq!(none.as_reader(&tags).err(), Some(CodecError::UnexpectedEnd));

    assert_eq!(scan_offsets(&[1, 1, b'a', 9], &[types::U8, types::BINARY, types::BOOL]), Ok(vec![0, 1, 3]));
    assert_eq!(scan_offsets(&[], &[]), Ok(vec![]));
    assert_eq!(scan_offsets(&[1, 2], &[0x0f]), Err(CodecError::UnexpectedEnd));
}

#[test]
fn every_scalar_round_trips_at_its_limits() {
    let tags = [
        types::BOOL, types::BOOL, types::I8, types::I8, types::U8, types::I16, types::I16,
        types::U16, types::I32, types::I32, types::U32, types::I64, types::I64, types::U64,
        types::F32, types::F64,
    ];
    let mut buffer = Buffer::with_capacity(8);
    {
        let mut w = buffer.as_writer(&tags);
        w.set_bool(true).unwrap();
        w.set_bool(false).unwrap();
        w.set_i8(i8::MIN).unwrap();
        w.set_i8(i8::MAX).unwrap();
        w.set_u8(u8::MAX).unwrap();
        w.set_i16(i16::MIN).unwrap();
        w.set_i16(-2).unwrap();
        w.set_u16(u16::MAX).unwrap();
        w.set_i32(i32::MIN).unwrap();
        w.set_i32(i32::MAX).unwrap();
        w.set_u32(u32::MAX).unwrap();
        w.set_i64(i64::MIN).unwrap();
        w.set_i64(-1).unwrap();
        w.set_u64(u64::MAX).unwrap();
        w.set_f32(f32::NAN.to_bits()).unwrap();
        w.set_f64((-0.0f64).to_bits()).unwrap();
    }
    assert_eq!(buffer.len(), 2 + 3 + 6 + 12 + 24 + 4 + 8);
    let mut r = buffer.as_reader_mut(&tags).unwrap();
    assert_eq!(r.get_bool(0), Ok(true));
    assert_eq!(r.get_bool(1), Ok(false));
    assert_eq!(r.get_i8(2), Ok(i8::MIN));
    assert_eq!(r.get_i8(3), Ok(i8::MAX));
    assert_eq!(r.get_u8(4), Ok(u8::MAX));
    assert_eq!(r.get_i16(5), Ok(i16::MIN));
    assert_eq!(r.get_i16(6), Ok(-2));
    assert_eq!(r.get_u16(7), Ok(u16::MAX));
    assert_eq!(r.get_i32(8), Ok(i32::MIN));
    assert_eq!(r.get_i32(9), Ok(i32::MAX));
    assert_eq!(r.get_u32(10), Ok(u32::MAX));
    assert_eq!(r.get_i64(11), Ok(i64::MIN));
    assert_eq!(r.get_i64(12), Ok(-1));
    assert_eq!(r.get_u64(13), Ok(u64::MAX));
    assert_eq!(r.get_f32(14), Ok(f32::NAN.to_bits()));
    assert_eq!(r.get_f64(15), Ok((-0.0f64).to_bits()));
    assert_eq!(r.get_u64(12), Err(CodecError::SchemaMismatch));
    assert_eq!(r.get_u8(16), Err(CodecError::UnexpectedEnd));
}

#[test]
fn raw_access_and_in_place_patching() {
    let tags = [types::U32, types::STRING, types::U16];
    let mut buffer = Buffer::new();
    {
        let mut w = buffer.as_writer(&tags);
        w.set_bytes_raw(&[1, 2, 3, 4]).unwrap();
        assert_eq!(w.set_bytes_raw(&[]), Ok(()));
        assert_eq!(w.set_bytes_raw(&[1, 2, 3]), Err(CodecError::SchemaMismatch));
        w.set_bytes_raw(&[0xCD, 0xAB]).unwrap();
    }
    assert_eq!(buffer.as_slice(), &[1u8, 2, 3, 4, 0, 0xCD, 0xAB][..]);
    let mut buffer = Buffer::new();
    {
        let mut w = buffer.as_writer(&tags);
        w.set_u32(0).unwrap();
        w.set_bytes_raw(b"abc").unwrap();
        w.set_u16(9).unwrap();
    }
    {
        let mut r = buffer.as_reader_mut(&tags).unwrap();
        assert_eq!(r.get_bytes_raw(0), Ok(&[0u8, 0, 0, 0][..]));
        assert_eq!(r.get_bytes_raw(1), Ok(&b"abc"[..]));
        assert_eq!(r.get_binary(1), Err(CodecError::SchemaMismatch));
        r.get_bytes_raw_mut(0).unwrap().copy_from_slice(&[0x78, 0x56, 0x34, 0x12]);
        r.get_bytes_raw_mut(1).unwrap().copy_from_slice(b"xyz");
        assert_eq!(r.get_bytes_raw_mut(3).err(), Some(CodecError::UnexpectedEnd));
        assert_eq!(r.get_u32(0), Ok(0x12345678));
        assert_eq!(r.get_str(1), Ok("xyz".to_string()));
        assert_eq!(r.get_u16(2), Ok(9));
    }
    assert_eq!(buffer.len(), 10);
    assert_eq!(buffer.as_slice(), &[0x78u8, 0x56, 0x34, 0x12, 3, b'x', b'y', b'z', 9, 0][..]);
    let r = buffer.as_reader(&tags).unwrap();
    assert_eq!(r.get_str(1), Ok("xyz"));
}

#[test]
fn long_payload_uses_a_wider_header() {
    let payload = vec![0xABu8; 300];
    let tags = [types::BINARY, types::U8];
    let mut buffer = Buffer::new();
    {
        let mut w = buffer.as_writer(&tags);
        w.set_binary(&payload).unwrap();
        w.set_u8(1).unwrap();
    }
    assert_eq!(buffer.len(), 3 + 300 + 1);
    assert_eq!(&buffer.as_slice()[..3], &[0xFCu8, 0x2C, 0x01][..]);
    let mut received = Buffer::from(BytesMut::from(buffer.as_slice()));
    let r = received.as_reader(&tags).unwrap();
    assert_eq!(r.get_binary(0), Ok(&payload[..]));
    assert_eq!(r.get_u8(1), Ok(1));
}

#[test]
fn a_new_write_session_starts_its_offsets_anew() {
    let tags = [types::U8, types::U8];
    let mut buffer = Buffer::new();
    {
        let mut w = buffer.as_writer(&tags);
        w.set_u8(1).unwrap();
        w.set_u8(2).unwrap();
    }
    {
        let mut w = buffer.as_writer(&tags);
        w.set_u8(3).unwrap();
        w.set_u8(4).unwrap();
    }
    assert_eq!(buffer.as_slice(), &[1u8, 2, 3, 4][..]);
    let r = buffer.as_reader(&tags).unwrap();
    assert_eq!(r.get_u8(0), Ok(3));
    assert_eq!(r.get_u8(1), Ok(4));
}

#[test]
fn error_messages() {
    assert_eq!(CodecError::SchemaMismatch.message(), "schema mismatch");
    assert_eq!(CodecError::SequentialWriteViolation.message(), "sequential write violation");
    assert_eq!(CodecError::UnexpectedEnd.message(), "unexpected end");
    assert_eq!(CodecError::InvalidEncoding.message(), "invalid encoding");
}

#[test]
fn field_metadata_holds_both_lists() {
    const TYPES: [u8; 2] = [types::U64, types::STRING];
    const NAMES: [&str; 2] = ["timestamp", "group"];
    static T: [u8; 2] = TYPES;
    static N: [&str; 2] = NAMES;
    let m = FieldMetadata::new(&T, &N);
    assert_eq!(m.field_type(), &[types::U64, types::STRING][..]);
    assert_eq!(m.field_name(), &["timestamp", "group"][..]);
}

#[test]
fn scalars_are_little_endian_on_the_wire() {
    let tags = [types::I8, types::I64, types::U32, types::F32, types::F64, types::BOOL];
    let mut buffer = Buffer::new();
    {
        let mut w = buffer.as_writer(&tags);
        w.set_i8(-2).unwrap();
        w.set_i64(-2).unwrap();
        w.set_u32(0x01020304).unwrap();
        w.set_f32(1.0f32.to_bits()).unwrap();
        w.set_f64(1.0f64.to_bits()).unwrap();
        w.set_bool(true).unwrap();
    }
    assert_eq!(
        buffer.as_slice(),
        &[
            0xFEu8, 0xFE, 0xFF, 0xFF, 0xFF, 0xFF, 0xFF, 0xFF, 0xFF, 4, 3, 2, 1, 0, 0, 0x80, 0x3F,
            0, 0, 0, 0, 0, 0, 0xF0, 0x3F, 1
        ][..]
    );
}

#[test]
fn checked_header_write() {
    let values: [u64; 8] = [0, 250, 251, 65535, 65536, 16777215, 16777216, u64::MAX];
    let sizes: [usize; 8] = [1, 1, 3, 3, 4, 4, 9, 9];
    let mut bs = BytesMut::new();
    let mut expected = BytesMut::new();
    let mut offset = 0;
    for k in 0..values.len() {
        assert_eq!(lenenc_size(values[k]), sizes[k]);
        assert_eq!(try_write_lenenc_int(values[k], &mut bs), Some(sizes[k]));
        write_lenenc_int(values[k], &mut expected);
        assert_eq!(&bs[..], &expected[..]);
        assert_eq!(read_lenenc_int(&bs, offset), Ok((values[k], sizes[k])));
        offset += sizes[k];
    }
    assert_eq!(bs.len(), 1 + 1 + 3 + 3 + 4 + 4 + 9 + 9);
}
