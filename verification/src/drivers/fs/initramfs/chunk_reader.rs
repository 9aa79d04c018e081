//! Access to a metadata table: a run of self-delimited chunks, each stored
//! raw or compressed, read as one logical byte stream.
//!
//! A chunk is a 2-byte little-endian header and a payload. The low 15 bits of
//! the header give the payload's length; the top bit is set where the payload
//! is stored as it is, and clear where it is compressed.

use crate::drivers::fs::vfs::VfsError;
use crate::libs::decompress::Decompressor;
use crate::libs::endian::{le_u16, read_le_u16};
use vstd::prelude::*;
use vstd::slice::slice_subrange;

verus! {

/// Bytes a chunk's header takes.
pub const HEADER_SIZE: usize = 2;

/// Whether `raw` has the shape of a chunk: a header, and a payload of the
/// length the header names.
pub open spec fn is_chunk(raw: Seq<u8>) -> bool {
    raw.len() >= 2 && raw.len() == 2 + (le_u16(raw, 0) & 0x7FFF)
}

/// The payload of the chunk `raw`.
pub open spec fn payload(raw: Seq<u8>) -> Seq<u8> {
    raw.subrange(2, raw.len() as int)
}

/// Whether the payload of the chunk `raw` is stored as it is.
pub open spec fn is_stored(raw: Seq<u8>) -> bool {
    le_u16(raw, 0) & 0x8000 != 0
}

/// The logical bytes of the chunk `raw`: its payload where that is stored as
/// it is, else what `d` makes of the payload. A payload that does not
/// decompress is a `DecompressFailure`; one that decompresses to more than a
/// chunk header can describe is `Corrupt`.
pub open spec fn decoded<D: Decompressor>(d: &D, raw: Seq<u8>) -> Result<Seq<u8>, VfsError> {
    if is_stored(raw) {
        Ok(payload(raw))
    } else {
        match d.output(payload(raw)) {
            None => Err(VfsError::DecompressFailure),
            Some(bytes) => if bytes.len() > 0x7FFF {
                Err(VfsError::Corrupt)
            } else {
                Ok(bytes)
            },
        }
    }
}

/// The chunks that `data` is made of, in order; `None` where `data` ends in
/// the middle of a chunk.
pub open spec fn split_chunks(data: Seq<u8>) -> Option<Seq<Seq<u8>>>
    decreases data.len(),
{
    if data.len() == 0 {
        Some(Seq::empty())
    } else if data.len() < 2 {
        None
    } else {
        let n = 2 + (le_u16(data, 0) & 0x7FFF) as int;
        if n > data.len() {
            None
        } else {
            match split_chunks(data.skip(n)) {
                None => None,
                Some(rest) => Some(seq![data.take(n)] + rest),
            }
        }
    }
}

/// The byte offset at which chunk `i` starts in the table that `raw` was
/// split from.
pub open spec fn disk_offset(raw: Seq<Seq<u8>>, i: int) -> int
    decreases i,
{
    if i <= 0 {
        0
    } else {
        disk_offset(raw, i - 1) + raw[i - 1].len()
    }
}

/// Whether chunk `i` of `raw` is the one that starts at byte `pos`.
pub open spec fn starts_at(raw: Seq<Seq<u8>>, i: int, pos: int) -> bool {
    0 <= i < raw.len() && disk_offset(raw, i) == pos
}

/// `size` logical bytes, starting `skip` bytes into chunk `idx` and running on
/// through the chunks that follow, as far as needed.
///
/// Only the chunks that the range touches, and those skipped on the way to
/// it, are decoded; the first of them that fails decides the error. A range
/// that runs past the last chunk is `Corrupt`.
pub open spec fn gather<D: Decompressor>(
    d: &D,
    raw: Seq<Seq<u8>>,
    idx: int,
    skip: int,
    size: int,
) -> Result<Seq<u8>, VfsError>
    decreases raw.len() - idx,
{
    if idx < 0 || idx >= raw.len() {
        Err(VfsError::Corrupt)
    } else {
        match decoded(d, raw[idx]) {
            Err(e) => Err(e),
            Ok(bytes) => {
                if skip > bytes.len() {
                    gather(d, raw, idx + 1, skip - bytes.len(), size)
                } else if bytes.len() - skip >= size {
                    Ok(bytes.subrange(skip, skip + size))
                } else {
                    match gather(d, raw, idx + 1, 0, size - (bytes.len() - skip)) {
                        Err(e) => Err(e),
                        Ok(rest) => Ok(bytes.subrange(skip, bytes.len() as int) + rest),
                    }
                }
            },
        }
    }
}

/// `size` logical bytes, starting `skip` bytes into the chunk that lies at byte
/// `pos` of the table. `Corrupt` where no chunk starts there.
#[verifier::opaque]
pub open spec fn read_at<D: Decompressor>(
    d: &D,
    raw: Seq<Seq<u8>>,
    pos: int,
    skip: int,
    size: int,
) -> Result<Seq<u8>, VfsError> {
    if exists|i: int| starts_at(raw, i, pos) {
        gather(d, raw, choose|i: int| starts_at(raw, i, pos), skip, size)
    } else {
        Err(VfsError::Corrupt)
    }
}

/// The logical bytes of the `n` chunks from `idx` on, joined in order; `None`
/// where one of them does not decode.
pub open spec fn joined<D: Decompressor>(d: &D, raw: Seq<Seq<u8>>, idx: int, n: int) -> Option<
    Seq<u8>,
>
    decreases n,
{
    if n <= 0 {
        Some(Seq::empty())
    } else if idx < 0 || idx >= raw.len() {
        None
    } else {
        match (decoded(d, raw[idx]), joined(d, raw, idx + 1, n - 1)) {
            (Ok(first), Some(rest)) => Some(first + rest),
            _ => None,
        }
    }
}

/// `out` followed by what `rest` yields.
pub open spec fn after(out: Seq<u8>, rest: Result<Seq<u8>, VfsError>) -> Result<
    Seq<u8>,
    VfsError,
> {
    match rest {
        Ok(bytes) => Ok(out + bytes),
        Err(e) => Err(e),
    }
}

/// Whether the executable result `r` is the specified result `s`.
pub open spec fn same_bytes(r: Result<Vec<u8>, VfsError>, s: Result<Seq<u8>, VfsError>) -> bool {
    match (r, s) {
        (Ok(v), Ok(bytes)) => v@ == bytes,
        (Err(e1), Err(e2)) => e1 == e2,
        _ => false,
    }
}

/// A range that lies within one chunk is a slice of that chunk's logical
/// bytes.
pub proof fn lemma_slice_within_chunk<D: Decompressor>(
    d: &D,
    raw: Seq<Seq<u8>>,
    idx: int,
    offset: int,
    size: int,
    bytes: Seq<u8>,
)
    requires
        0 <= idx < raw.len(),
        decoded(d, raw[idx]) == Ok::<Seq<u8>, VfsError>(bytes),
        0 <= offset,
        0 <= size,
        offset + size <= bytes.len(),
    ensures
        gather(d, raw, idx, offset, size) == Ok::<Seq<u8>, VfsError>(
            bytes.subrange(offset, offset + size),
        ),
{
}

/// A range that spans `n` chunks is a slice of their logical bytes joined in
/// order.
pub proof fn lemma_slice_across_chunks<D: Decompressor>(
    d: &D,
    raw: Seq<Seq<u8>>,
    idx: int,
    n: int,
    offset: int,
    size: int,
    bytes: Seq<u8>,
)
    requires
        0 <= idx,
        1 <= n,
        idx + n <= raw.len(),
        joined(d, raw, idx, n) == Some(bytes),
        0 <= offset,
        0 <= size,
        offset + size <= bytes.len(),
    ensures
        gather(d, raw, idx, offset, size) == Ok::<Seq<u8>, VfsError>(
            bytes.subrange(offset, offset + size),
        ),
    decreases n,
{
    let first = decoded(d, raw[idx])->Ok_0;
    let rest = joined(d, raw, idx + 1, n - 1)->Some_0;
    assert(bytes == first + rest);
    if offset > first.len() {
        assert(n > 1) by {
            if n == 1 {
                assert(rest.len() == 0);
            }
        }
        lemma_slice_across_chunks(d, raw, idx + 1, n - 1, offset - first.len(), size, rest);
        assert(rest.subrange(offset - first.len(), offset - first.len() + size)
            =~= bytes.subrange(offset, offset + size));
    } else if first.len() - offset >= size {
        assert(first.subrange(offset, offset + size) =~= bytes.subrange(offset, offset + size));
    } else {
        assert(n > 1) by {
            if n == 1 {
                assert(rest.len() == 0);
            }
        }
        let more = size - (first.len() - offset);
        lemma_slice_across_chunks(d, raw, idx + 1, n - 1, 0, more, rest);
        assert(first.subrange(offset, first.len() as int) + rest.subrange(0, more)
            =~= bytes.subrange(offset, offset + size));
    }
}

/// A read at the byte where chunk `i` starts is a read from chunk `i`.
pub proof fn lemma_read_at_chunk<D: Decompressor>(
    d: &D,
    raw: Seq<Seq<u8>>,
    i: int,
    pos: int,
    skip: int,
    size: int,
)
    requires
        forall|k: int| 0 <= k < raw.len() ==> is_chunk(#[trigger] raw[k]),
        starts_at(raw, i, pos),
    ensures
        read_at(d, raw, pos, skip, size) == gather(d, raw, i, skip, size),
{
    reveal(read_at);
    let j = choose|j: int| starts_at(raw, j, pos);
    if i < j {
        lemma_disk_offset_increases(raw, i, j);
    } else if j < i {
        lemma_disk_offset_increases(raw, j, i);
    }
}

/// Chunks start at strictly increasing offsets.
pub proof fn lemma_disk_offset_increases(raw: Seq<Seq<u8>>, i: int, j: int)
    requires
        0 <= i < j <= raw.len(),
        forall|k: int| 0 <= k < raw.len() ==> is_chunk(#[trigger] raw[k]),
    ensures
        disk_offset(raw, i) < disk_offset(raw, j),
    decreases j - i,
{
    if i + 1 < j {
        lemma_disk_offset_increases(raw, i, j - 1);
    }
    assert(is_chunk(raw[j - 1]));
}

/// One chunk of a metadata table: header and payload.
pub struct Chunk {
    pub data: Vec<u8>,
}

impl Chunk {
    /// A chunk is well formed when its data has the shape of a chunk.
    pub open spec fn wf(&self) -> bool {
        is_chunk(self.data@)
    }

    /// The chunk's header word.
    pub fn header(&self) -> (h: u16)
        requires
            self.wf(),
        ensures
            h == le_u16(self.data@, 0),
    {
        read_le_u16(self.data.as_slice(), 0)
    }

    /// Length of the payload in bytes.
    pub fn len(&self) -> (n: usize)
        requires
            self.wf(),
        ensures
            n == payload(self.data@).len(),
            n <= 0x7FFF,
    {
        let h = self.header();
        assert(h & 0x7FFF <= 0x7FFF) by (bit_vector);
        (h & 0x7FFF) as usize
    }

    /// Whether the payload still has to be decompressed.
    pub fn is_compressed(&self) -> (c: bool)
        requires
            self.wf(),
        ensures
            c == !is_stored(self.data@),
    {
        self.header() & 0x8000 == 0
    }

    /// Replaces a compressed payload by its decompressed form, with a header
    /// that marks it as stored. A chunk that is stored already stays as it
    /// is, and so does one whose payload does not decode.
    pub fn decompress<D: Decompressor>(&mut self, decompressor: &D) -> (r: Result<(), VfsError>)
        requires
            old(self).wf(),
        ensures
            final(self).wf(),
            match decoded(decompressor, old(self).data@) {
                Ok(bytes) => r is Ok && is_stored(final(self).data@) && payload(final(self).data@)
                    == bytes,
                Err(e) => r == Err::<(), VfsError>(e) && final(self).data@ == old(self).data@,
            },
    {
        if self.is_compressed() {
            let n = self.data.len();
            let decompressed_data = decompressor.decompress(
                slice_subrange(self.data.as_slice(), HEADER_SIZE, n),
            )?;
            if decompressed_data.len() > 0x7FFF {
                return Err(VfsError::Corrupt);
            }
            let len: u16 = decompressed_data.len() as u16;
            let header: u16 = len | 0x8000;
            let lo: u8 = (header & 0xFF) as u8;
            let hi: u8 = (header >> 8) as u8;
            assert(lo as int + 0x100 * (hi as int) == header && header & 0x7FFF == len && header
                & 0x8000 != 0) by (bit_vector)
                requires
                    header == len | 0x8000,
                    lo == (header & 0xFF) as u8,
                    hi == (header >> 8) as u8,
                    len <= 0x7FFF,
            ;
            let mut data: Vec<u8> = Vec::new();
            data.push(lo);
            data.push(hi);
            let mut i: usize = 0;
            while i < decompressed_data.len()
                invariant
                    i <= decompressed_data.len(),
                    data.len() == 2 + i,
                    data[0] == lo,
                    data[1] == hi,
                    forall|k: int| 0 <= k < i ==> data[2 + k] == decompressed_data[k],
                decreases decompressed_data.len() - i,
            {
                data.push(decompressed_data[i]);
                i += 1;
            }
            assert(payload(data@) =~= decompressed_data@);
            self.data = data;
        }
        Ok(())
    }
}

/// A metadata table, split into its chunks.
///
/// Chunks are decompressed when a read first touches them, and the result is
/// kept in place of the compressed payload. What the reader answers depends
/// only on the table it was made from: its view, the chunks as they lay on
/// disk.
pub struct ChunkReader<D> {
    chunks: Vec<Chunk>,
    starts: Vec<usize>,
    decompressor: D,
    raw: Ghost<Seq<Seq<u8>>>,
}

impl<D: Decompressor> View for ChunkReader<D> {
    type V = Seq<Seq<u8>>;

    /// The chunks of the table as they lay on disk, headers included.
    closed spec fn view(&self) -> Seq<Seq<u8>> {
        self.raw@
    }
}

impl<D: Decompressor> ChunkReader<D> {
    /// The reader's invariant: it holds one chunk per on-disk chunk, each
    /// either untouched or replaced by its decoded form, and knows where each
    /// started on disk.
    pub closed spec fn wf(&self) -> bool {
        &&& self.chunks.len() == self.raw@.len()
        &&& self.starts.len() == self.raw@.len()
        &&& forall|i: int| 0 <= i < self.raw@.len() ==> is_chunk(#[trigger] self.raw@[i])
        &&& forall|i: int|
            0 <= i < self.raw@.len() ==> #[trigger] self.starts[i] == disk_offset(self.raw@, i)
        &&& forall|i: int| 0 <= i < self.raw@.len() ==> self.holds(i)
    }

    /// Chunk `i` is held either as it lay on disk or decoded and marked as
    /// stored.
    spec fn holds(&self, i: int) -> bool {
        let held = self.chunks[i].data@;
        &&& self.chunks[i].wf()
        &&& held == self.raw@[i] || (is_stored(held) && decoded(&self.decompressor, self.raw@[i])
            == Ok::<Seq<u8>, VfsError>(payload(held)))
    }

    /// The decompressor that the reader was made with.
    pub closed spec fn spec_decompressor(&self) -> D {
        self.decompressor
    }

    /// Every chunk of a well-formed reader has the shape of a chunk.
    pub proof fn lemma_view_is_chunks(&self)
        requires
            self.wf(),
        ensures
            forall|i: int| 0 <= i < self@.len() ==> is_chunk(#[trigger] self@[i]),
    {
    }

    /// Splits the table `data` into its chunks. No chunk is decompressed yet.
    ///
    /// Fails with `Corrupt` where `data` ends in the middle of a chunk.
    pub fn new(data: &[u8], decompressor: D) -> (r: Result<Self, VfsError>)
        ensures
            match split_chunks(data@) {
                Some(chunks) => r is Ok && r->Ok_0.wf() && r->Ok_0@ == chunks
                    && r->Ok_0.spec_decompressor() == decompressor,
                None => r is Err && r->Err_0 == VfsError::Corrupt,
            },
    {
        let mut chunks: Vec<Chunk> = Vec::new();
        let mut starts: Vec<usize> = Vec::new();
        let ghost mut raw: Seq<Seq<u8>> = Seq::empty();

        let mut offset: usize = 0;
        proof {
            assert(data@.skip(0) =~= data@);
            match split_chunks(data@) {
                Some(rest) => {
                    assert(raw + rest =~= rest);
                },
                None => {},
            }
        }
        while offset != data.len()
            invariant
                offset <= data.len(),
                chunks.len() == raw.len(),
                starts.len() == raw.len(),
                disk_offset(raw, raw.len() as int) == offset,
                forall|i: int| 0 <= i < raw.len() ==> is_chunk(#[trigger] raw[i]),
                forall|i: int| 0 <= i < raw.len() ==> #[trigger] starts[i] == disk_offset(raw, i),
                forall|i: int| 0 <= i < raw.len() ==> (#[trigger] chunks[i]).data@ == raw[i],
                split_chunks(data@) == match split_chunks(data@.skip(offset as int)) {
                    Some(rest) => Some(raw + rest),
                    None => None,
                },
            decreases data.len() - offset,
        {
            let ghost tail = data@.skip(offset as int);
            if data.len() - offset < HEADER_SIZE {
                return Err(VfsError::Corrupt);
            }
            let header = read_le_u16(data, offset);
            assert(header & 0x7FFF <= 0x7FFF) by (bit_vector);
            assert(le_u16(tail, 0) == header);
            let length: usize = (header & 0x7FFF) as usize + HEADER_SIZE;
            if data.len() - offset < length {
                return Err(VfsError::Corrupt);
            }
            let piece = slice_subrange(data, offset, offset + length);
            let mut bytes: Vec<u8> = Vec::new();
            bytes.extend_from_slice(piece);
            assert(bytes@ =~= tail.take(length as int));
            assert(tail.skip(length as int) =~= data@.skip(offset + length));
            proof {
                let old_raw = raw;
                raw = raw.push(bytes@);
                assert forall|i: int| 0 <= i <= raw.len() implies disk_offset(raw, i)
                    == if i < raw.len() {
                    disk_offset(old_raw, i)
                } else {
                    offset + length
                } by {
                    lemma_disk_offset_prefix(old_raw, bytes@, i);
                }
                match split_chunks(data@.skip(offset + length)) {
                    Some(rest) => {
                        assert(old_raw + (seq![bytes@] + rest) =~= raw + rest);
                    },
                    None => {},
                }
            }
            chunks.push(Chunk { data: bytes });
            starts.push(offset);
            offset += length;
        }
        proof {
            assert(data@.skip(offset as int) =~= Seq::<u8>::empty());
            assert(raw + Seq::<Seq<u8>>::empty() =~= raw);
        }
        Ok(Self { chunks, starts, decompressor, raw: Ghost(raw) })
    }

    /// Index of the chunk that starts at byte `pos` of the table, if any.
    fn locate(&self, pos: u64) -> (r: Option<usize>)
        requires
            self.wf(),
        ensures
            match r {
                Some(i) => starts_at(self@, i as int, pos as int),
                None => forall|i: int| !starts_at(self@, i, pos as int),
            },
    {
        let mut i: usize = 0;
        while i < self.starts.len()
            invariant
                self.wf(),
                i <= self.starts.len(),
                forall|k: int| 0 <= k < i ==> disk_offset(self@, k) < pos,
            decreases self.starts.len() - i,
        {
            let start = self.starts[i] as u64;
            if start == pos {
                return Some(i);
            }
            if start > pos {
                assert forall|k: int| !starts_at(self@, k, pos as int) by {
                    if i < k < self@.len() {
                        lemma_disk_offset_increases(self@, i as int, k);
                    }
                }
                return None;
            }
            i += 1;
        }
        None
    }

    /// Reads `size` logical bytes, starting `offset` bytes into the chunk that
    /// lies at byte `chunk` of the table and running on through as many of
    /// the following chunks as it takes.
    ///
    /// Chunks are counted by where they start on disk, because compressed
    /// chunks do not lie at a fixed stride. Each chunk on the way is
    /// decompressed at most once, now or by an earlier read.
    ///
    /// Fails with `Corrupt` where no chunk starts at `chunk` or the range runs
    /// past the last chunk, and with the chunk's own error where one does not
    /// decode.
    #[verifier::loop_isolation(false)]
    pub fn get_slice(&mut self, chunk: u64, offset: u16, size: usize) -> (r: Result<
        Vec<u8>,
        VfsError,
    >)
        requires
            old(self).wf(),
        ensures
            final(self).wf(),
            final(self)@ == old(self)@,
            final(self).spec_decompressor() == old(self).spec_decompressor(),
            r is Ok ==> r->Ok_0.len() == size,
            same_bytes(
                r,
                read_at(
                    &old(self).spec_decompressor(),
                    old(self)@,
                    chunk as int,
                    offset as int,
                    size as int,
                ),
            ),
    {
        let first = match self.locate(chunk) {
            Some(i) => i,
            None => {
                proof {
                    reveal(read_at);
                }
                return Err(VfsError::Corrupt);
            },
        };
        proof {
            lemma_read_at_chunk(
                &self.decompressor,
                self@,
                first as int,
                chunk as int,
                offset as int,
                size as int,
            );
        }

        let ghost d = self.decompressor;
        let ghost raw = self.raw@;
        let ghost goal = gather(&d, raw, first as int, offset as int, size as int);
        let mut data: Vec<u8> = Vec::new();
        let mut cur: usize = first;
        let mut skip: usize = offset as usize;
        let mut want: usize = size;
        loop
            invariant
                self.wf(),
                self.raw@ == raw,
                self.decompressor == d,
                raw == old(self).raw@,
                d == old(self).decompressor,
                cur <= self.chunks.len(),
                data.len() + want == size,
                goal == after(data@, gather(&d, raw, cur as int, skip as int, want as int)),
            decreases self.chunks.len() - cur,
        {
            if cur >= self.chunks.len() {
                return Err(VfsError::Corrupt);
            }
            assert(self.holds(cur as int));
            let ghost before = *self;
            match self.chunks[cur].decompress(&self.decompressor) {
                Ok(()) => {},
                Err(e) => {
                    assert forall|i: int| 0 <= i < raw.len() implies self.holds(i) by {
                        assert(before.holds(i));
                    }
                    return Err(e);
                },
            }
            assert forall|i: int| 0 <= i < raw.len() implies self.holds(i) by {
                assert(before.holds(i));
            }
            let ghost bytes = payload(self.chunks[cur as int].data@);
            assert(decoded(&d, raw[cur as int]) == Ok::<Seq<u8>, VfsError>(bytes));
            let len = self.chunks[cur].len();
            if skip > len {
                skip -= len;
            } else {
                let avail = len - skip;
                let take = if avail >= want {
                    want
                } else {
                    avail
                };
                let from = HEADER_SIZE + skip;
                let piece = slice_subrange(self.chunks[cur].data.as_slice(), from, from + take);
                assert(piece@ =~= bytes.subrange(skip as int, skip + take));
                let ghost sofar = data@;
                data.extend_from_slice(piece);
                if avail >= want {
                    assert(data@ =~= sofar + bytes.subrange(skip as int, skip + want));
                    return Ok(data);
                }
                proof {
                    let rest = gather(&d, raw, cur + 1, 0, want - avail);
                    match rest {
                        Ok(more) => {
                            assert(sofar + (piece@ + more) =~= data@ + more);
                        },
                        Err(_) => {},
                    }
                }
                want -= avail;
                skip = 0;
            }
            cur += 1;
        }
    }
}

/// Pushing a chunk leaves the offsets of the earlier ones as they were, and
/// puts the end of the table one chunk further.
proof fn lemma_disk_offset_prefix(raw: Seq<Seq<u8>>, last: Seq<u8>, i: int)
    requires
        0 <= i <= raw.len() + 1,
    ensures
        disk_offset(raw.push(last), i) == if i <= raw.len() {
            disk_offset(raw, i)
        } else {
            disk_offset(raw, raw.len() as int) + last.len()
        },
    decreases i,
{
    if i > 0 {
        lemma_disk_offset_prefix(raw, last, i - 1);
    }
}

} // verus!
