//! The byte buffer that records are written to and read from.

use crate::encoding::decode_lenenc_int;
use crate::error::CodecError;
use crate::layout::{field_extent, scan, scan_prefix};
use crate::raw::{bytes_as_slice, bytes_len, bytes_put_slice, bytes_view, bytes_with_capacity};
use crate::reader::{BufferMutReader, BufferReader};
use crate::types::{width_of, BINARY};
use crate::writer::BufferWriter;
use bytes::BytesMut;
use vstd::prelude::*;
use vstd::std_specs::cmp::PartialEqSpecImpl;

verus! {

/// Growable byte storage with a cache of field offsets. The buffer knows no
/// schema: the tag list comes with each view that is opened on it.
#[derive(Debug)]
pub struct Buffer {
    pub(crate) buf: BytesMut,
    pub(crate) buf_len: usize,
    pub(crate) field_pos_index: Vec<usize>,
}

/// The offsets that a reader works with: the cached ones where there are
/// any, else those that a forward scan under `tags` finds.
pub open spec fn offsets_for(cached: Seq<usize>, bytes: Seq<u8>, tags: Seq<u8>) -> Result<
    Seq<usize>,
    CodecError,
> {
    if cached.len() > 0 {
        Ok(cached)
    } else {
        scan(bytes, tags)
    }
}

/// Scans `bytes` forward under `tags` and returns the offset of each field.
pub fn scan_offsets(bytes: &[u8], tags: &[u8]) -> (r: Result<Vec<usize>, CodecError>)
    ensures
        match r {
            Ok(offsets) => scan(bytes@, tags@) == Ok::<Seq<usize>, CodecError>(offsets@),
            Err(e) => scan(bytes@, tags@) == Err::<Seq<usize>, CodecError>(e),
        },
{
    let total: usize = bytes.len();
    let mut offsets: Vec<usize> = Vec::new();
    let mut pos: usize = 0;
    let mut i: usize = 0;
    while i < tags.len()
        invariant
            i <= tags@.len(),
            total == bytes@.len(),
            pos <= total,
            scan_prefix(bytes@, tags@, i as nat) == Ok::<(Seq<usize>, int), CodecError>(
                (offsets@, pos as int),
            ),
        decreases tags@.len() - i,
    {
        let tag: u8 = tags[i];
        let ghost extent = field_extent(bytes@, tag, pos as int);
        let size: usize = if tag >= BINARY {
            match decode_lenenc_int(bytes, pos) {
                Err(e) => {
                    proof {
                        lemma_scan_fails(bytes@, tags@, (i + 1) as nat, e);
                    }
                    return Err(e);
                },
                Ok((v, h)) => {
                    if v > (total - pos - h) as u64 {
                        proof {
                            lemma_scan_fails(bytes@, tags@, (i + 1) as nat, CodecError::UnexpectedEnd);
                        }
                        return Err(CodecError::UnexpectedEnd);
                    }
                    h + (v as usize)
                },
            }
        } else {
            let w: usize = width_of(tag);
            if w > total - pos {
                proof {
                    lemma_scan_fails(bytes@, tags@, (i + 1) as nat, CodecError::UnexpectedEnd);
                }
                return Err(CodecError::UnexpectedEnd);
            }
            w
        };
        assert(extent == Ok::<int, CodecError>(size as int));
        offsets.push(pos);
        pos = pos + size;
        i = i + 1;
    }
    Ok(offsets)
}

/// Once a prefix of the tags fails to scan, the whole list fails the same
/// way.
pub proof fn lemma_scan_fails(bytes: Seq<u8>, tags: Seq<u8>, n: nat, e: CodecError)
    requires
        n <= tags.len(),
        scan_prefix(bytes, tags, n) == Err::<(Seq<usize>, int), CodecError>(e),
    ensures
        scan(bytes, tags) == Err::<Seq<usize>, CodecError>(e),
    decreases tags.len() - n,
{
    if n < tags.len() {
        lemma_scan_fails(bytes, tags, n + 1, e);
    }
}

impl Buffer {
    /// The bytes written so far.
    pub open(crate) spec fn view(&self) -> Seq<u8> {
        bytes_view(self.buf)
    }

    /// The cached offsets: empty, or one per field written or scanned.
    pub open(crate) spec fn offsets(&self) -> Seq<usize> {
        self.field_pos_index@
    }

    /// The logical length is the number of bytes held.
    pub open(crate) spec fn wf(&self) -> bool {
        self.buf_len == bytes_view(self.buf).len()
    }

    /// An empty buffer.
    pub fn new() -> (b: Buffer)
        ensures
            b.wf(),
            b@ == Seq::<u8>::empty(),
            b.offsets() == Seq::<usize>::empty(),
    {
        Buffer { buf: bytes_with_capacity(256), buf_len: 0, field_pos_index: Vec::new() }
    }

    /// An empty buffer. `capacity` is a hint for the storage to reserve: it
    /// has no part in what the buffer holds.
    pub fn with_capacity(capacity: usize) -> (b: Buffer)
        requires
            capacity <= isize::MAX,
        ensures
            b.wf(),
            b@ == Seq::<u8>::empty(),
            b.offsets() == Seq::<usize>::empty(),
    {
        Buffer { buf: bytes_with_capacity(capacity), buf_len: 0, field_pos_index: Vec::new() }
    }

    /// A buffer over bytes that exist already; no offset is known yet.
    pub fn from(bytes: BytesMut) -> (b: Buffer)
        ensures
            b.wf(),
            b@ == bytes_view(bytes),
            b.offsets() == Seq::<usize>::empty(),
    {
        let buffer_len = bytes_len(&bytes);
        Buffer { buf: bytes, buf_len: buffer_len, field_pos_index: Vec::new() }
    }

    /// The number of bytes written so far.
    pub fn len(&self) -> (n: usize)
        requires
            self.wf(),
        ensures
            n == self@.len(),
    {
        self.buf_len
    }

    /// The bytes written so far.
    pub fn as_slice(&self) -> (s: &[u8])
        ensures
            s@ == self@,
    {
        bytes_as_slice(&self.buf)
    }

    /// Appends the bytes of `other` and forgets the cached offsets.
    pub fn extend(&mut self, other: &Buffer) -> (r: Result<(), CodecError>)
        requires
            old(self).wf(),
            other.wf(),
            old(self)@.len() + other@.len() <= isize::MAX,
        ensures
            r == Ok::<(), CodecError>(()),
            final(self).wf(),
            final(self)@ == old(self)@ + other@,
            final(self).offsets() == Seq::<usize>::empty(),
    {
        self.buf_len = self.buf_len + other.buf_len;
        bytes_put_slice(&mut self.buf, other.as_slice());
        self.field_pos_index = Vec::new();
        Ok(())
    }

    /// Opens a sequential writer at field 0. The cached offsets start anew:
    /// the writer records one per field that it appends.
    pub fn as_writer<'a, 'b>(&'a mut self, data_types: &'b [u8]) -> (w: BufferWriter<'a, 'b>)
        requires
            old(self).wf(),
        ensures
            w.wf(),
            w.bytes() == old(self)@,
            w.offsets() == Seq::<usize>::empty(),
            w.tags() == data_types@,
            w.index() == 0,
            *final(w.raw_buffer) == *final(self),
    {
        self.field_pos_index = Vec::new();
        BufferWriter::new(self, data_types)
    }

    /// Makes sure that offsets are at hand: keeps the cached ones, or scans
    /// the bytes under `data_types` when there are none. A failed scan
    /// leaves the cache empty.
    fn ensure_offsets(&mut self, data_types: &[u8]) -> (r: Result<(), CodecError>)
        ensures
            final(self)@ == old(self)@,
            final(self).wf() == old(self).wf(),
            match r {
                Ok(()) => offsets_for(old(self).offsets(), old(self)@, data_types@) == Ok::<
                    Seq<usize>,
                    CodecError,
                >(final(self).offsets()),
                Err(e) => {
                    &&& offsets_for(old(self).offsets(), old(self)@, data_types@) == Err::<
                        Seq<usize>,
                        CodecError,
                    >(e)
                    &&& final(self).offsets() == Seq::<usize>::empty()
                },
            },
    {
        if self.field_pos_index.len() == 0 {
            match scan_offsets(bytes_as_slice(&self.buf), data_types) {
                Err(e) => {
                    assert(self.offsets() =~= Seq::<usize>::empty());
                    Err(e)
                },
                Ok(offsets) => {
                    self.field_pos_index = offsets;
                    Ok(())
                },
            }
        } else {
            Ok(())
        }
    }

    /// Opens a read-only view. Where no offsets are cached the bytes are
    /// scanned under `data_types` first, and the view is refused as the scan
    /// fails: with an invalid encoding at a reserved length marker, with an
    /// unexpected end where a field runs past the bytes.
    pub fn as_reader<'a, 'b>(&'a mut self, data_types: &'b [u8]) -> (r: Result<
        BufferReader<'a, 'b>,
        CodecError,
    >)
        ensures
            final(self)@ == old(self)@,
            final(self).wf() == old(self).wf(),
            match r {
                Ok(reader) => {
                    &&& offsets_for(old(self).offsets(), old(self)@, data_types@) == Ok::<
                        Seq<usize>,
                        CodecError,
                    >(final(self).offsets())
                    &&& reader.bytes() == old(self)@
                    &&& reader.offsets() == final(self).offsets()
                    &&& reader.tags() == data_types@
                },
                Err(e) => {
                    &&& offsets_for(old(self).offsets(), old(self)@, data_types@) == Err::<
                        Seq<usize>,
                        CodecError,
                    >(e)
                    &&& final(self).offsets() == Seq::<usize>::empty()
                },
            },
    {
        match self.ensure_offsets(data_types) {
            Err(e) => Err(e),
            Ok(()) => Ok(BufferReader::new(self, data_types)),
        }
    }

    /// Opens a view that can patch fields in place. Offsets are found as
    /// for a read-only view.
    pub fn as_reader_mut<'a, 'b>(&'a mut self, data_types: &'b [u8]) -> (r: Result<
        BufferMutReader<'a, 'b>,
        CodecError,
    >)
        ensures
            match r {
                Ok(reader) => {
                    &&& offsets_for(old(self).offsets(), old(self)@, data_types@) == Ok::<
                        Seq<usize>,
                        CodecError,
                    >(reader.offsets())
                    &&& reader.bytes() == old(self)@
                    &&& reader.tags() == data_types@
                    &&& reader.raw_buffer.wf() == old(self).wf()
                    &&& *final(reader.raw_buffer) == *final(self)
                },
                Err(e) => {
                    &&& offsets_for(old(self).offsets(), old(self)@, data_types@) == Err::<
                        Seq<usize>,
                        CodecError,
                    >(e)
                    &&& final(self)@ == old(self)@
                    &&& final(self).wf() == old(self).wf()
                    &&& final(self).offsets() == Seq::<usize>::empty()
                },
            },
    {
        match self.ensure_offsets(data_types) {
            Err(e) => Err(e),
            Ok(()) => Ok(BufferMutReader::new(self, data_types)),
        }
    }
}

/// Whether two runs of bytes are the same.
pub fn slices_equal(a: &[u8], b: &[u8]) -> (r: bool)
    ensures
        r == (a@ == b@),
{
    if a.len() != b.len() {
        return false;
    }
    let mut i: usize = 0;
    while i < a.len()
        invariant
            i <= a@.len(),
            a@.len() == b@.len(),
            a@.subrange(0, i as int) == b@.subrange(0, i as int),
        decreases a@.len() - i,
    {
        if a[i] != b[i] {
            return false;
        }
        assert(a@.subrange(0, i + 1) =~= a@.subrange(0, i as int).push(a@[i as int]));
        assert(b@.subrange(0, i + 1) =~= b@.subrange(0, i as int).push(b@[i as int]));
        i = i + 1;
    }
    assert(a@ =~= a@.subrange(0, i as int));
    assert(b@ =~= b@.subrange(0, i as int));
    true
}

impl Clone for Buffer {
    fn clone(&self) -> (r: Self)
        ensures
            r@ == self@,
            r.offsets() == self.offsets(),
            r.wf() == self.wf(),
    {
        Buffer {
            buf: self.buf.clone(),
            buf_len: self.buf_len,
            field_pos_index: self.field_pos_index.clone(),
        }
    }
}

impl PartialEq for Buffer {
    fn eq(&self, other: &Self) -> (r: bool) {
        slices_equal(self.as_slice(), other.as_slice())
    }
}

impl core::hash::Hash for Buffer {
    /// `Hash::hash` of the bytes held: buffers with the same bytes feed a
    /// hasher alike.
    #[verifier::external_body]
    fn hash<H: core::hash::Hasher>(&self, state: &mut H) {
        self.buf.as_ref().hash(state)
    }
}

impl Eq for Buffer {

}

impl PartialEqSpecImpl for Buffer {
    open spec fn obeys_eq_spec() -> bool {
        true
    }

    open spec fn eq_spec(&self, other: &Self) -> bool {
        self@ == other@
    }
}

} // verus!
