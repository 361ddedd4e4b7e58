//! Records as values: what a run of writes puts on the wire, and the proof
//! that the readers find every value again.

use crate::encoding::{
    le_bytes, le_value, lemma_le_bytes_len, lemma_le_round_trip, lemma_lenenc_round_trip,
    lemma_lenenc_shape, lemma_pow256_values, lenenc, lenenc_len,
};
use crate::error::CodecError;
use crate::layout::{
    field_extent, payload_bytes, payload_span, scalar_value, scan, scan_prefix, slot_bytes,
    string_bytes, var_field,
};
use crate::types::{
    is_variable, lemma_scalar_widths, width, BINARY, BOOL, F32, F64, I16, I32, I64, I8, STRING,
    U16, U32, U64, U8,
};
use crate::writer::BufferWriter;
use vstd::prelude::*;
use vstd::utf8::{encode_utf8, encode_utf8_valid_utf8};

verus! {

/// The value of one field. Floats stand as their IEEE 754 bit patterns.
pub enum FieldValue {
    Bool(bool),
    I8(i8),
    U8(u8),
    I16(i16),
    U16(u16),
    I32(i32),
    U32(u32),
    I64(i64),
    U64(u64),
    F32(u32),
    F64(u64),
    Binary(Seq<u8>),
    Str(Seq<char>),
}

/// The tag under which a value is written and read.
pub open spec fn tag_of(f: FieldValue) -> u8 {
    match f {
        FieldValue::Bool(_) => BOOL,
        FieldValue::I8(_) => I8,
        FieldValue::U8(_) => U8,
        FieldValue::I16(_) => I16,
        FieldValue::U16(_) => U16,
        FieldValue::I32(_) => I32,
        FieldValue::U32(_) => U32,
        FieldValue::I64(_) => I64,
        FieldValue::U64(_) => U64,
        FieldValue::F32(_) => F32,
        FieldValue::F64(_) => F64,
        FieldValue::Binary(_) => BINARY,
        FieldValue::Str(_) => STRING,
    }
}

/// The bytes that the writer appends for a value.
pub open spec fn encode_field(f: FieldValue) -> Seq<u8> {
    match f {
        FieldValue::Bool(v) => seq![if v { 1u8 } else { 0u8 }],
        FieldValue::I8(v) => seq![v as u8],
        FieldValue::U8(v) => seq![v],
        FieldValue::I16(v) => le_bytes(v as u16 as nat, 2),
        FieldValue::U16(v) => le_bytes(v as nat, 2),
        FieldValue::I32(v) => le_bytes(v as u32 as nat, 4),
        FieldValue::U32(v) => le_bytes(v as nat, 4),
        FieldValue::I64(v) => le_bytes(v as u64 as nat, 8),
        FieldValue::U64(v) => le_bytes(v as nat, 8),
        FieldValue::F32(v) => le_bytes(v as nat, 4),
        FieldValue::F64(v) => le_bytes(v as nat, 8),
        FieldValue::Binary(v) => var_field(v),
        FieldValue::Str(v) => var_field(encode_utf8(v)),
    }
}

/// What a reader makes of a field: for a scalar, the getter's conversion of
/// the number `n` that the slot spells; for a variable-length field, the
/// payload `payload`.
pub open spec fn decode_field(tag: u8, n: nat, payload: Seq<u8>) -> FieldValue {
    if tag == BOOL {
        FieldValue::Bool(n == 1)
    } else if tag == I8 {
        FieldValue::I8(n as u8 as i8)
    } else if tag == U8 {
        FieldValue::U8(n as u8)
    } else if tag == I16 {
        FieldValue::I16(n as u16 as i16)
    } else if tag == U16 {
        FieldValue::U16(n as u16)
    } else if tag == I32 {
        FieldValue::I32(n as u32 as i32)
    } else if tag == U32 {
        FieldValue::U32(n as u32)
    } else if tag == I64 {
        FieldValue::I64(n as u64 as i64)
    } else if tag == U64 {
        FieldValue::U64(n as u64)
    } else if tag == F32 {
        FieldValue::F32(n as u32)
    } else if tag == F64 {
        FieldValue::F64(n as u64)
    } else if tag == BINARY {
        FieldValue::Binary(payload)
    } else {
        FieldValue::Str(vstd::utf8::decode_utf8(payload))
    }
}

/// The bytes of a record: its fields one after another.
pub open spec fn encode_record(fs: Seq<FieldValue>) -> Seq<u8>
    decreases fs.len(),
{
    if fs.len() == 0 {
        Seq::<u8>::empty()
    } else {
        encode_record(fs.drop_last()) + encode_field(fs.last())
    }
}

/// The offsets that the writer records for a record that starts at `start`.
pub open spec fn record_offsets(start: nat, fs: Seq<FieldValue>) -> Seq<usize>
    decreases fs.len(),
{
    if fs.len() == 0 {
        Seq::<usize>::empty()
    } else {
        record_offsets(start, fs.drop_last()).push(
            (start + encode_record(fs.drop_last()).len()) as usize,
        )
    }
}

/// The tag list of a record.
pub open spec fn tags_of(fs: Seq<FieldValue>) -> Seq<u8> {
    Seq::new(fs.len(), |i: int| tag_of(fs[i]))
}

/// What the reader finds at `index` when the field is asked for under the
/// tag declared for it: the value read back, or the error.
pub open spec fn read_field(bytes: Seq<u8>, offsets: Seq<usize>, tags: Seq<u8>, index: int) -> Result<
    FieldValue,
    CodecError,
>
    recommends
        0 <= index < tags.len(),
{
    if tags[index] == STRING {
        match string_bytes(bytes, offsets, tags, index) {
            Err(e) => Err(e),
            Ok(p) => Ok(decode_field(STRING, 0, p)),
        }
    } else if tags[index] == BINARY {
        match payload_bytes(bytes, offsets, tags, index, BINARY) {
            Err(e) => Err(e),
            Ok(p) => Ok(decode_field(BINARY, 0, p)),
        }
    } else {
        match scalar_value(bytes, offsets, tags, index, tags[index]) {
            Err(e) => Err(e),
            Ok(n) => Ok(decode_field(tags[index], n, Seq::<u8>::empty())),
        }
    }
}

/// Whether a value is a scalar.
pub open spec fn is_scalar(f: FieldValue) -> bool {
    !(f is Binary) && !(f is Str)
}

/// The payload of a variable-length value; nothing for a scalar.
pub open spec fn payload_of(f: FieldValue) -> Seq<u8> {
    match f {
        FieldValue::Binary(v) => v,
        FieldValue::Str(v) => encode_utf8(v),
        _ => Seq::<u8>::empty(),
    }
}

/// One more write extends the record by one field: the bytes grow by the
/// field's encoding and the offset recorded is where the field starts.
pub proof fn lemma_record_push(start: nat, fs: Seq<FieldValue>, f: FieldValue)
    ensures
        encode_record(fs.push(f)) == encode_record(fs) + encode_field(f),
        record_offsets(start, fs.push(f)) == record_offsets(start, fs).push(
            (start + encode_record(fs).len()) as usize,
        ),
        tags_of(fs.push(f)) == tags_of(fs).push(tag_of(f)),
{
    assert(fs.push(f).drop_last() =~= fs);
    assert(tags_of(fs.push(f)) =~= tags_of(fs).push(tag_of(f)));
}

/// The bytes of two records, one after the other, are the bytes of the
/// record that has the fields of both.
pub proof fn lemma_record_concat(a: Seq<FieldValue>, b: Seq<FieldValue>)
    ensures
        encode_record(a + b) == encode_record(a) + encode_record(b),
        tags_of(a + b) == tags_of(a) + tags_of(b),
    decreases b.len(),
{
    assert(tags_of(a + b) =~= tags_of(a) + tags_of(b));
    if b.len() == 0 {
        assert(a + b =~= a);
        assert(encode_record(a) + encode_record(b) =~= encode_record(a));
    } else {
        lemma_record_concat(a, b.drop_last());
        assert((a + b).drop_last() =~= a + b.drop_last());
        assert((a + b).last() == b.last());
        assert(encode_record(a + b) =~= encode_record(a) + encode_record(b));
    }
}

/// The record holds one offset per field, and the offset of field `i` is
/// the start plus the length of the fields before it.
pub proof fn lemma_offset_at(start: nat, fs: Seq<FieldValue>, i: int)
    requires
        0 <= i < fs.len(),
    ensures
        record_offsets(start, fs).len() == fs.len(),
        record_offsets(start, fs)[i] == (start + encode_record(fs.take(i)).len()) as usize,
    decreases fs.len(),
{
    lemma_offsets_len(start, fs);
    if i == fs.len() - 1 {
        assert(fs.take(i) =~= fs.drop_last());
    } else {
        lemma_offset_at(start, fs.drop_last(), i);
        assert(fs.drop_last().take(i) =~= fs.take(i));
    }
}

/// The record holds one offset per field.
pub proof fn lemma_offsets_len(start: nat, fs: Seq<FieldValue>)
    ensures
        record_offsets(start, fs).len() == fs.len(),
    decreases fs.len(),
{
    if fs.len() > 0 {
        lemma_offsets_len(start, fs.drop_last());
    }
}

/// The bytes of a record split around field `i`: the fields before it, the
/// field, the fields behind it.
pub proof fn lemma_record_split(fs: Seq<FieldValue>, i: int)
    requires
        0 <= i < fs.len(),
    ensures
        encode_record(fs) == encode_record(fs.take(i)) + encode_field(fs[i]) + encode_record(
            fs.skip(i + 1),
        ),
{
    let head = fs.take(i);
    let one = seq![fs[i]];
    let tail = fs.skip(i + 1);
    assert(fs =~= head + one + tail);
    lemma_record_concat(head + one, tail);
    lemma_record_concat(head, one);
    assert(one.drop_last() =~= Seq::<FieldValue>::empty());
    assert(encode_record(one) =~= encode_field(fs[i])) by {
        reveal_with_fuel(encode_record, 2);
    }
}

/// A scalar occupies the width of its tag, and the getter's conversion of
/// the number that its bytes spell is the value itself.
pub proof fn lemma_scalar_round_trip(f: FieldValue)
    requires
        is_scalar(f),
    ensures
        !is_variable(tag_of(f)),
        encode_field(f).len() == width(tag_of(f)),
        decode_field(tag_of(f), le_value(encode_field(f)), Seq::<u8>::empty()) == f,
{
    lemma_scalar_widths();
    lemma_pow256_values();
    reveal_with_fuel(le_value, 2);
    let e = encode_field(f);
    match f {
        FieldValue::Bool(v) => {
            assert(e.drop_first() =~= Seq::<u8>::empty());
        },
        FieldValue::I8(v) => {
            assert(e.drop_first() =~= Seq::<u8>::empty());
            assert((v as u8) as i8 == v) by (bit_vector);
        },
        FieldValue::U8(v) => {
            assert(e.drop_first() =~= Seq::<u8>::empty());
        },
        FieldValue::I16(v) => {
            lemma_le_bytes_len(v as u16 as nat, 2);
            lemma_le_round_trip(v as u16 as nat, 2);
            assert((v as u16) as i16 == v) by (bit_vector);
        },
        FieldValue::U16(v) => {
            lemma_le_bytes_len(v as nat, 2);
            lemma_le_round_trip(v as nat, 2);
        },
        FieldValue::I32(v) => {
            lemma_le_bytes_len(v as u32 as nat, 4);
            lemma_le_round_trip(v as u32 as nat, 4);
            assert((v as u32) as i32 == v) by (bit_vector);
        },
        FieldValue::U32(v) => {
            lemma_le_bytes_len(v as nat, 4);
            lemma_le_round_trip(v as nat, 4);
        },
        FieldValue::I64(v) => {
            lemma_le_bytes_len(v as u64 as nat, 8);
            lemma_le_round_trip(v as u64 as nat, 8);
            assert((v as u64) as i64 == v) by (bit_vector);
        },
        FieldValue::U64(v) => {
            lemma_le_bytes_len(v as nat, 8);
            lemma_le_round_trip(v as nat, 8);
        },
        FieldValue::F32(v) => {
            lemma_le_bytes_len(v as nat, 4);
            lemma_le_round_trip(v as nat, 4);
        },
        FieldValue::F64(v) => {
            lemma_le_bytes_len(v as nat, 8);
            lemma_le_round_trip(v as nat, 8);
        },
        _ => {},
    }
}

/// A variable-length field is found where it was written: the header gives
/// the payload's length and the payload follows it, whatever precedes and
/// follows the field.
pub proof fn lemma_payload_round_trip(payload: Seq<u8>, before: Seq<u8>, after: Seq<u8>)
    requires
        payload.len() <= u64::MAX,
    ensures
        payload_span(before + var_field(payload) + after, before.len() as int) == Ok::<
            (int, int),
            CodecError,
        >(((before.len() + lenenc_len(payload.len() as u64)) as int, payload.len() as int)),
        var_field(payload).len() == lenenc_len(payload.len() as u64) + payload.len(),
        slot_bytes(
            before + var_field(payload) + after,
            payload_span(before + var_field(payload) + after, before.len() as int),
        ) == Ok::<Seq<u8>, CodecError>(payload),
{
    let v = payload.len() as u64;
    let bytes = before + var_field(payload) + after;
    lemma_lenenc_shape(v);
    lemma_lenenc_round_trip(v, before, payload + after);
    assert(bytes =~= before + lenenc(v) + (payload + after));
    let start = (before.len() + lenenc_len(v)) as int;
    assert(bytes.subrange(start, start + payload.len()) =~= payload);
}

/// What was written is read back: after the fields `fs` have been written
/// in order behind `prefix`, reading any field back under the same tag list
/// gives the value that was written.
pub proof fn lemma_round_trip(prefix: Seq<u8>, fs: Seq<FieldValue>, i: int)
    requires
        0 <= i < fs.len(),
        prefix.len() + encode_record(fs).len() <= usize::MAX,
    ensures
        read_field(
            prefix + encode_record(fs),
            record_offsets(prefix.len(), fs),
            tags_of(fs),
            i,
        ) == Ok::<FieldValue, CodecError>(fs[i]),
{
    let bytes = prefix + encode_record(fs);
    let offsets = record_offsets(prefix.len(), fs);
    let tags = tags_of(fs);
    let f = fs[i];
    let before = prefix + encode_record(fs.take(i));
    let after = encode_record(fs.skip(i + 1));
    lemma_record_split(fs, i);
    lemma_offset_at(prefix.len(), fs, i);
    assert(bytes =~= before + encode_field(f) + after);
    assert(offsets[i] == before.len());
    if is_scalar(f) {
        lemma_scalar_round_trip(f);
        assert(bytes.subrange(before.len() as int, (before.len() + width(tag_of(f))) as int)
            =~= encode_field(f));
    } else {
        let p = payload_of(f);
        lemma_payload_round_trip(p, before, after);
        if f is Str {
            encode_utf8_valid_utf8(f->Str_0);
            vstd::utf8::encode_utf8_decode_utf8(f->Str_0);
        }
    }
}

/// A run of bytes that holds a record, scanned forward under the record's
/// tag list, gives the offsets that the writer recorded.
pub proof fn lemma_scan_round_trip(fs: Seq<FieldValue>)
    requires
        encode_record(fs).len() <= usize::MAX,
    ensures
        scan(encode_record(fs), tags_of(fs)) == Ok::<Seq<usize>, CodecError>(
            record_offsets(0, fs),
        ),
{
    lemma_scan_prefix(fs, fs.len());
    assert(fs.take(fs.len() as int) =~= fs);
}

/// The scan over the first `n` tags of a record finds the offsets of its
/// first `n` fields and ends behind them.
pub proof fn lemma_scan_prefix(fs: Seq<FieldValue>, n: nat)
    requires
        n <= fs.len(),
        encode_record(fs).len() <= usize::MAX,
    ensures
        scan_prefix(encode_record(fs), tags_of(fs), n) == Ok::<(Seq<usize>, int), CodecError>(
            (record_offsets(0, fs.take(n as int)), encode_record(fs.take(n as int)).len() as int),
        ),
    decreases n,
{
    let bytes = encode_record(fs);
    if n == 0 {
        assert(fs.take(0) =~= Seq::<FieldValue>::empty());
    } else {
        let i = (n - 1) as int;
        let f = fs[i];
        lemma_scan_prefix(fs, (n - 1) as nat);
        lemma_record_split(fs, i);
        let before = encode_record(fs.take(i));
        let after = encode_record(fs.skip(i + 1));
        assert(bytes =~= before + encode_field(f) + after);
        assert(fs.take(n as int).drop_last() =~= fs.take(i));
        assert(fs.take(n as int).last() == f);
        if is_scalar(f) {
            lemma_scalar_round_trip(f);
        } else {
            lemma_payload_round_trip(payload_of(f), before, after);
        }
        assert(field_extent(bytes, tag_of(f), before.len() as int) == Ok::<int, CodecError>(
            encode_field(f).len() as int,
        ));
    }
}

/// A scalar whose slot lies within the bytes is refused as a mismatch when
/// it is asked for under another tag than the declared one.
pub proof fn lemma_scalar_type_safety(
    bytes: Seq<u8>,
    offsets: Seq<usize>,
    tags: Seq<u8>,
    index: int,
    tag: u8,
)
    requires
        0 <= index < offsets.len(),
        index < tags.len(),
        offsets[index] + width(tag) <= bytes.len(),
        tags[index] != tag,
    ensures
        scalar_value(bytes, offsets, tags, index, tag) == Err::<nat, CodecError>(
            CodecError::SchemaMismatch,
        ),
{
}

/// A variable-length field is refused as a mismatch when it is asked for
/// under another tag than the declared one, whatever its bytes.
pub proof fn lemma_payload_type_safety(
    bytes: Seq<u8>,
    offsets: Seq<usize>,
    tags: Seq<u8>,
    index: int,
    tag: u8,
)
    requires
        0 <= index < offsets.len(),
        index < tags.len(),
        tags[index] != tag,
    ensures
        payload_bytes(bytes, offsets, tags, index, tag) == Err::<Seq<u8>, CodecError>(
            CodecError::SchemaMismatch,
        ),
{
}

/// A field that was never written or scanned is an unexpected end, under
/// every tag.
pub proof fn lemma_unwritten_field(
    bytes: Seq<u8>,
    offsets: Seq<usize>,
    tags: Seq<u8>,
    index: int,
    tag: u8,
)
    requires
        index >= offsets.len(),
    ensures
        scalar_value(bytes, offsets, tags, index, tag) == Err::<nat, CodecError>(
            CodecError::UnexpectedEnd,
        ),
        payload_bytes(bytes, offsets, tags, index, tag) == Err::<Seq<u8>, CodecError>(
            CodecError::UnexpectedEnd,
        ),
{
}

/// What reading the first `n` fields in order gives: their values, or the
/// error of the first read that fails.
pub open spec fn read_record(bytes: Seq<u8>, offsets: Seq<usize>, tags: Seq<u8>, n: nat) -> Result<
    Seq<FieldValue>,
    CodecError,
>
    decreases n,
{
    if n == 0 {
        Ok(Seq::<FieldValue>::empty())
    } else {
        match read_record(bytes, offsets, tags, (n - 1) as nat) {
            Err(e) => Err(e),
            Ok(fs) => match read_field(bytes, offsets, tags, n - 1) {
                Err(e) => Err(e),
                Ok(f) => Ok(fs.push(f)),
            },
        }
    }
}

/// A whole record is read back: after the fields `fs` have been written in
/// order behind `prefix`, reading the first `n` of them back in order gives
/// exactly those `n` values.
pub proof fn lemma_record_round_trip(prefix: Seq<u8>, fs: Seq<FieldValue>, n: nat)
    requires
        n <= fs.len(),
        prefix.len() + encode_record(fs).len() <= usize::MAX,
    ensures
        read_record(
            prefix + encode_record(fs),
            record_offsets(prefix.len(), fs),
            tags_of(fs),
            n,
        ) == Ok::<Seq<FieldValue>, CodecError>(fs.take(n as int)),
    decreases n,
{
    if n == 0 {
        assert(fs.take(0) =~= Seq::<FieldValue>::empty());
    } else {
        lemma_record_round_trip(prefix, fs, (n - 1) as nat);
        lemma_round_trip(prefix, fs, n - 1);
        assert(fs.take(n - 1).push(fs[n - 1]) =~= fs.take(n as int));
    }
}

/// The writer builds the record. When a session holds the fields `fs`
/// behind `prefix`, a write of the value `f` that succeeds leaves it holding
/// the fields `fs` and `f`, with the offsets that belong to them.
pub proof fn lemma_write_extends_record(
    post: &BufferWriter,
    pre: &BufferWriter,
    prefix: Seq<u8>,
    fs: Seq<FieldValue>,
    f: FieldValue,
    r: Result<(), CodecError>,
)
    requires
        post.wrote(pre, tag_of(f), encode_field(f), r),
        pre.bytes() == prefix + encode_record(fs),
        pre.offsets() == record_offsets(prefix.len(), fs),
        r is Ok,
    ensures
        post.bytes() == prefix + encode_record(fs.push(f)),
        post.offsets() == record_offsets(prefix.len(), fs.push(f)),
        post.index() == pre.index() + 1,
{
    lemma_record_push(prefix.len(), fs, f);
    assert(post.bytes() =~= prefix + encode_record(fs.push(f)));
}

/// The bytes of one record followed by the bytes of another, read without
/// cached offsets under the tags of the first followed by the tags of the
/// second, give the values of both records.
pub proof fn lemma_concatenation(a: Seq<FieldValue>, b: Seq<FieldValue>, i: int)
    requires
        0 <= i < a.len() + b.len(),
        encode_record(a).len() + encode_record(b).len() <= usize::MAX,
    ensures
        scan(encode_record(a) + encode_record(b), tags_of(a) + tags_of(b)) == Ok::<
            Seq<usize>,
            CodecError,
        >(record_offsets(0, a + b)),
        read_field(
            encode_record(a) + encode_record(b),
            record_offsets(0, a + b),
            tags_of(a) + tags_of(b),
            i,
        ) == Ok::<FieldValue, CodecError>((a + b)[i]),
{
    lemma_record_concat(a, b);
    lemma_scan_round_trip(a + b);
    lemma_round_trip(Seq::<u8>::empty(), a + b, i);
    assert(Seq::<u8>::empty() + encode_record(a + b) =~= encode_record(a + b));
}

/// An empty payload is one byte on the wire, the header 0, so the field
/// behind it starts one byte further on.
pub proof fn lemma_empty_payload()
    ensures
        var_field(Seq::<u8>::empty()) == seq![0u8],
        encode_field(FieldValue::Binary(Seq::<u8>::empty())) == seq![0u8],
        encode_field(FieldValue::Str(Seq::<char>::empty())) == seq![0u8],
{
    assert(encode_utf8(Seq::<char>::empty()) =~= Seq::<u8>::empty());
    assert(var_field(Seq::<u8>::empty()) =~= seq![0u8]);
}

} // verus!
