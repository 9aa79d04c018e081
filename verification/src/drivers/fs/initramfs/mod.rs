//! Reader for the read-only compressed archive image that holds the initial
//! root file system.
//!
//! An image is a superblock, a data table, and up to six metadata tables.
//! Inodes and directory listings lie in tables of chunks; an inode is named
//! by the byte at which its chunk starts and its offset in the chunk's
//! logical bytes.

pub mod chunk_reader;
pub mod directory;
pub mod inode;
pub mod superblock;

use crate::drivers::fs::initramfs::chunk_reader::{
    read_at, same_bytes, split_chunks, ChunkReader,
};
use crate::drivers::fs::initramfs::directory::{
    DirectoryTableEntry, DirectoryTableHeader, DIRECTORY_ENTRY_HEAD, DIRECTORY_HEADER_SIZE,
};
use crate::drivers::fs::initramfs::inode::{BasicFileInode, Inode, InodeFileType, NO_FRAGMENT};
use crate::drivers::fs::initramfs::superblock::{
    SquashfsCompressionType, SquashfsFeatures, SquashfsSuperblock, ABSENT_TABLE, SUPERBLOCK_SIZE,
};
use crate::drivers::fs::vfs::{
    view_bytes, FileId, FsOp, FsOps, StatFs, UserCred, VAttr, VNode, VNodeOp, VNodeOperations,
    VNodeType, VfsError, UIO,
};
use crate::libs::bytes::bytes_eq;
use crate::libs::decompress::Decompressor;
use crate::libs::endian::{le_u16, le_u32, le_u64, read_le_u16, read_le_u32, read_le_u64};
use crate::libs::gzip::Gzip;
use vstd::prelude::*;
use vstd::slice::slice_subrange;

verus! {

/// Fragment entries that one chunk of the fragment table holds.
pub const FRAGMENTS_PER_CHUNK: u32 = 512;

/// Length of a fragment entry.
pub const FRAGMENT_ENTRY_SIZE: usize = 16;

/// Bit of a fragment's size word that is set where the fragment is stored as
/// it is.
pub const FRAGMENT_STORED: u32 = 0x0100_0000;

/// `candidate`, where it lies after `start` and before `best`; else `best`.
pub open spec fn next_after(start: u64, candidate: u64, best: u64) -> u64 {
    if start < candidate && candidate < best {
        candidate
    } else {
        best
    }
}

/// Where the table that starts at `start` ends: at the nearest table offset
/// after it, or at the end of the archive. An absent table's offset is all
/// ones, so it never bounds another.
pub open spec fn table_end(sb: SquashfsSuperblock, start: u64) -> u64 {
    next_after(
        start,
        sb.xattr_table,
        next_after(
            start,
            sb.id_table,
            next_after(
                start,
                sb.export_table,
                next_after(
                    start,
                    sb.frag_table,
                    next_after(start, sb.dir_table, next_after(start, sb.inode_table, sb.bytes_used)),
                ),
            ),
        ),
    )
}

/// The bytes of the table that starts at `start`.
pub open spec fn table(image: Seq<u8>, sb: SquashfsSuperblock, start: u64) -> Seq<u8> {
    image.subrange(start as int, table_end(sb, start) as int)
}

/// The byte range of the table that starts at `start`: from its offset to
/// where it ends.
pub open spec fn table_range(sb: SquashfsSuperblock, start: u64) -> (usize, usize) {
    (start as usize, table_end(sb, start) as usize)
}

/// The byte range of a table that may be absent: none for the offset that
/// is all ones.
pub open spec fn optional_table_range(sb: SquashfsSuperblock, start: u64) -> Option<
    (usize, usize),
> {
    if start == ABSENT_TABLE {
        None
    } else {
        Some(table_range(sb, start))
    }
}

/// Where the parts of an archive lie in its image that are not read
/// through chunk readers, each as the byte range from its first byte to
/// the byte after its last.
#[derive(Clone, Copy, Debug)]
pub struct TableRanges {
    /// The data blocks.
    pub data_table: (usize, usize),
    /// The fragment table, if there is one.
    pub fragment_table: Option<(usize, usize)>,
    /// The export table, if there is one.
    pub export_table: Option<(usize, usize)>,
    /// The id table.
    pub id_table: (usize, usize),
    /// The table of extended attributes, if there is one.
    pub xattr_table: Option<(usize, usize)>,
}

/// The byte ranges that the superblock `sb` gives: the data blocks between
/// the superblock and the inode table, and each of the other tables from
/// its offset to the nearest table offset after it, or to the end of the
/// archive. A table that is absent has no range.
pub open spec fn ranges_in(sb: SquashfsSuperblock) -> TableRanges {
    TableRanges {
        data_table: (SUPERBLOCK_SIZE, sb.inode_table as usize),
        fragment_table: optional_table_range(sb, sb.frag_table),
        export_table: optional_table_range(sb, sb.export_table),
        id_table: table_range(sb, sb.id_table),
        xattr_table: optional_table_range(sb, sb.xattr_table),
    }
}

/// Whether every table that the superblock names starts inside the archive,
/// the inode table after the superblock.
pub open spec fn tables_in_bounds(sb: SquashfsSuperblock) -> bool {
    &&& SUPERBLOCK_SIZE <= sb.inode_table <= sb.bytes_used
    &&& sb.dir_table <= sb.bytes_used
    &&& sb.id_table <= sb.bytes_used
    &&& sb.frag_table != ABSENT_TABLE ==> sb.frag_table <= sb.bytes_used
    &&& sb.export_table != ABSENT_TABLE ==> sb.export_table <= sb.bytes_used
    &&& sb.xattr_table != ABSENT_TABLE ==> sb.xattr_table <= sb.bytes_used
}

/// The superblock of the archive `image`, where `image` is one that this
/// reader takes.
///
/// `Corrupt` where the superblock does not validate, the image is shorter
/// than the superblock says, a table starts outside it, or the inode or the
/// directory table does not split into chunks; `Unsupported` where the image
/// is compressed with anything but gzip.
#[verifier::opaque]
pub open spec fn check_image(image: Seq<u8>) -> Result<SquashfsSuperblock, VfsError> {
    match SquashfsSuperblock::decode(image) {
        None => Err(VfsError::Corrupt),
        Some(sb) => {
            if sb.compressor != SquashfsCompressionType::Gzip {
                Err(VfsError::Unsupported)
            } else if sb.bytes_used > image.len() || !tables_in_bounds(sb) {
                Err(VfsError::Corrupt)
            } else if split_chunks(table(image, sb, sb.inode_table)) is None || split_chunks(
                table(image, sb, sb.dir_table),
            ) is None {
                Err(VfsError::Corrupt)
            } else {
                Ok(sb)
            }
        },
    }
}

/// The chunks of the inode table of the archive `image`.
pub open spec fn inode_chunks(image: Seq<u8>) -> Seq<Seq<u8>> {
    let sb = SquashfsSuperblock::decode(image)->Some_0;
    split_chunks(table(image, sb, sb.inode_table))->Some_0
}

/// The chunks of the directory table of the archive `image`.
pub open spec fn directory_chunks(image: Seq<u8>) -> Seq<Seq<u8>> {
    let sb = SquashfsSuperblock::decode(image)->Some_0;
    split_chunks(table(image, sb, sb.dir_table))->Some_0
}

/// The inode that lies `offset` bytes into the chunk that starts at byte
/// `block` of the inode table.
///
/// Two bytes are read for the tag; the tag decides how long the record is;
/// the record is read from the same place and decoded. `Corrupt` for an
/// unknown tag, `Unsupported` for a kind that is not decoded, and the read's
/// own error where a read fails.
pub open spec fn inode_at<D: Decompressor>(
    d: &D,
    image: Seq<u8>,
    block: int,
    offset: int,
) -> Result<Inode, VfsError> {
    match read_at(d, inode_chunks(image), block, offset, 2) {
        Err(e) => Err(e),
        Ok(tag) => match InodeFileType::of_tag(le_u16(tag, 0)) {
            None => Err(VfsError::Corrupt),
            Some(kind) => match kind.spec_record_size() {
                None => Err(VfsError::Unsupported),
                Some(n) => match read_at(d, inode_chunks(image), block, offset, n as int) {
                    Err(e) => Err(e),
                    Ok(record) => Inode::parse(record),
                },
            },
        },
    }
}

/// The rest of a directory scan.
///
/// The listing lies `base` bytes into the chunk that starts at byte `block`
/// of the directory table and is `dir_size` bytes long. The scan stands
/// `offset` bytes into it; `seen` of the `count` entries of the current run
/// are behind it, and the inodes of that run lie in the inode chunk at
/// `start`.
///
/// At the end of the listing the name is `NotFound`. Where the run is
/// exhausted before that, the next run's header follows at once and the scan
/// goes on with it. Else the next entry is read: where its name is `name`,
/// byte for byte, its inode is the answer, else it is stepped over. `Corrupt`
/// where a header or an entry does not parse or lies too far into the chunk
/// to address.
pub open spec fn dir_scan<D: Decompressor>(
    d: &D,
    image: Seq<u8>,
    block: int,
    base: int,
    dir_size: int,
    offset: int,
    seen: int,
    count: int,
    start: int,
    name: Seq<u8>,
) -> Result<Inode, VfsError>
    decreases
        if offset < dir_size {
            dir_size - offset
        } else {
            0
        },
{
    if offset >= dir_size {
        Err(VfsError::NotFound)
    } else if offset < 0 || base + offset + 6 > 0xFFFF {
        Err(VfsError::Corrupt)
    } else if seen == count {
        match read_at(d, directory_chunks(image), block, base + offset, 12) {
            Err(e) => Err(e),
            Ok(bytes) => match DirectoryTableHeader::parse(bytes) {
                None => Err(VfsError::Corrupt),
                Some(header) => dir_scan(
                    d,
                    image,
                    block,
                    base,
                    dir_size,
                    offset + 12,
                    0,
                    header.entry_count as int,
                    header.start as int,
                    name,
                ),
            },
        }
    } else {
        match read_at(d, directory_chunks(image), block, base + offset + 6, 2) {
            Err(e) => Err(e),
            Ok(size_bytes) => {
                let name_size = le_u16(size_bytes, 0) + 1;
                match read_at(d, directory_chunks(image), block, base + offset, 8 + name_size) {
                    Err(e) => Err(e),
                    Ok(bytes) => match DirectoryTableEntry::parse(bytes) {
                        None => Err(VfsError::Corrupt),
                        Some(entry) => if entry.name == name {
                            inode_at(d, image, start, entry.offset as int)
                        } else {
                            dir_scan(
                                d,
                                image,
                                block,
                                base,
                                dir_size,
                                offset + 8 + name_size,
                                seen + 1,
                                count,
                                start,
                                name,
                            )
                        },
                    },
                }
            },
        }
    }
}

/// The inode that the directory `dir` lists under `name`.
///
/// `NotFound` where `dir` is no directory or lists nothing under `name`.
pub open spec fn dir_lookup<D: Decompressor>(
    d: &D,
    image: Seq<u8>,
    dir: Inode,
    name: Seq<u8>,
) -> Result<Inode, VfsError> {
    match dir {
        Inode::BasicDirectory(dir) => dir_scan(
            d,
            image,
            dir.block_index as int,
            dir.block_offset as int,
            dir.file_size as int,
            0,
            0,
            0,
            0,
            name,
        ),
        Inode::ExtendedDirectory(dir) => dir_scan(
            d,
            image,
            dir.block_index as int,
            dir.block_offset as int,
            dir.file_size as int,
            0,
            0,
            0,
            0,
            name,
        ),
        Inode::BasicFile(_) => Err(VfsError::NotFound),
    }
}

/// What `d` makes of `bytes`, as a result.
pub open spec fn inflated<D: Decompressor>(d: &D, bytes: Seq<u8>) -> Result<Seq<u8>, VfsError> {
    match d.output(bytes) {
        Some(out) => Ok(out),
        None => Err(VfsError::DecompressFailure),
    }
}

/// The content of a table.
///
/// Where `metadata_block.0` holds, `table` is a chunk: its header says
/// whether the payload is compressed. Else all of `table` is content, and it
/// is compressed where `metadata_block.1` is `Some(true)`.
pub open spec fn table_bytes<D: Decompressor>(
    d: &D,
    table: Seq<u8>,
    metadata_block: (bool, Option<bool>),
) -> Result<Seq<u8>, VfsError> {
    if metadata_block.0 {
        if table.len() < 2 {
            Err(VfsError::Corrupt)
        } else if le_u16(table, 0) & 0x8000 == 0 {
            inflated(d, table.skip(2))
        } else {
            Ok(table.skip(2))
        }
    } else if metadata_block.1 == Some(true) {
        inflated(d, table)
    } else {
        Ok(table)
    }
}

/// Where a fragment lies in the image, how long it is there, and whether it
/// is compressed.
pub struct FragmentEntry {
    pub start: u64,
    pub size: u32,
    pub compressed: bool,
}

/// Where the chunk that holds the entry of fragment `idx` lies in the image,
/// as the byte it starts at and its length with the header.
///
/// The fragment table is a list of 64-bit pointers, each to a chunk of 512
/// entries. `Corrupt` where there is no fragment table, or the pointer or
/// the chunk lies outside the archive.
pub open spec fn fragment_chunk(image: Seq<u8>, sb: SquashfsSuperblock, idx: u32) -> Result<
    (int, int),
    VfsError,
> {
    let slot = sb.frag_table + 8 * (idx / 512);
    if sb.frag_table == ABSENT_TABLE || slot + 8 > sb.bytes_used {
        Err(VfsError::Corrupt)
    } else {
        let ptr = le_u64(image, slot) as int;
        if ptr + 2 > sb.bytes_used {
            Err(VfsError::Corrupt)
        } else {
            let n = 2 + (le_u16(image, ptr) & 0x7FFF);
            if ptr + n > sb.bytes_used {
                Err(VfsError::Corrupt)
            } else {
                Ok((ptr, n))
            }
        }
    }
}

/// The entry of fragment `idx` among the `entries` of its chunk: 16 bytes,
/// the fragment's start and a size word whose bit 24 is set where the
/// fragment is stored as it is. `Corrupt` where the chunk is too short.
pub open spec fn fragment_entry_in(entries: Seq<u8>, idx: u32) -> Result<FragmentEntry, VfsError> {
    let at = 16 * (idx % 512);
    if at + 16 > entries.len() {
        Err(VfsError::Corrupt)
    } else {
        Ok(
            FragmentEntry {
                start: le_u64(entries, at),
                size: le_u32(entries, at + 8) & 0xFEFF_FFFF,
                compressed: le_u32(entries, at + 8) & 0x0100_0000 == 0,
            },
        )
    }
}

/// The fragment table's entry for fragment `idx`.
pub open spec fn fragment_entry<D: Decompressor>(d: &D, image: Seq<u8>, idx: u32) -> Result<
    FragmentEntry,
    VfsError,
> {
    match fragment_chunk(image, SquashfsSuperblock::decode(image)->Some_0, idx) {
        Err(e) => Err(e),
        Ok((ptr, n)) => match table_bytes(d, image.subrange(ptr, ptr + n), (true, None)) {
            Err(e) => Err(e),
            Ok(entries) => fragment_entry_in(entries, idx),
        },
    }
}

/// The bytes among which the content of `file` lies.
///
/// For a file without a fragment that is the data table, which runs from
/// the superblock to the inode table and is compressed unless the
/// superblock's flags say that data blocks are not. For a file with a
/// fragment it is the fragment: the byte range that its entry names,
/// decompressed where the entry says so.
pub open spec fn file_source<D: Decompressor>(d: &D, image: Seq<u8>, file: BasicFileInode) -> Result<
    Seq<u8>,
    VfsError,
> {
    let sb = SquashfsSuperblock::decode(image)->Some_0;
    if file.frag_idx == NO_FRAGMENT {
        table_bytes(
            d,
            image.subrange(SUPERBLOCK_SIZE as int, sb.inode_table as int),
            (false, Some(!SquashfsFeatures::of_flags(sb.flags).uncompressed_data_blocks)),
        )
    } else {
        match fragment_entry(d, image, file.frag_idx) {
            Err(e) => Err(e),
            Ok(entry) => if entry.start + entry.size > sb.bytes_used {
                Err(VfsError::Corrupt)
            } else {
                table_bytes(
                    d,
                    image.subrange(entry.start as int, entry.start + entry.size),
                    (false, Some(entry.compressed)),
                )
            },
        }
    }
}

/// The smaller of two numbers.
pub open spec fn min(a: int, b: int) -> int {
    if a <= b {
        a
    } else {
        b
    }
}

/// Up to `count` bytes of `file`, from `offset` on.
///
/// The read is clamped to the file's size: it starts no later than the end
/// of the file and stops there. The file's content begins `block_offset`
/// bytes into its source; `Corrupt` where the source is too short for the
/// bytes asked for.
pub open spec fn file_read<D: Decompressor>(
    d: &D,
    image: Seq<u8>,
    file: BasicFileInode,
    count: int,
    offset: int,
) -> Result<Seq<u8>, VfsError> {
    match file_source(d, image, file) {
        Err(e) => Err(e),
        Ok(data) => {
            let begin = min(offset, file.file_size as int);
            let n = min(count, file.file_size - begin);
            let from = file.block_offset + begin;
            if from + n > data.len() {
                Err(VfsError::Corrupt)
            } else {
                Ok(data.subrange(from, from + n))
            }
        },
    }
}

/// A scan whose run is exhausted before the end of the listing goes on with
/// the run that the next header opens; it does not stop there.
pub proof fn lemma_scan_continues<D: Decompressor>(
    d: &D,
    image: Seq<u8>,
    block: int,
    base: int,
    dir_size: int,
    offset: int,
    count: int,
    start: int,
    name: Seq<u8>,
    header: DirectoryTableHeader,
)
    requires
        0 <= offset < dir_size,
        base + offset + 6 <= 0xFFFF,
        match read_at(d, directory_chunks(image), block, base + offset, 12) {
            Ok(bytes) => DirectoryTableHeader::parse(bytes) == Some(header),
            Err(_) => false,
        },
    ensures
        dir_scan(d, image, block, base, dir_size, offset, count, count, start, name) == dir_scan(
            d,
            image,
            block,
            base,
            dir_size,
            offset + 12,
            0,
            header.entry_count as int,
            header.start as int,
            name,
        ),
{
}

/// An archive image, opened for reading.
pub struct Squashfs<D> {
    pub superblock: SquashfsSuperblock,
    image: Vec<u8>,
    decompressor: D,
    /// Where the data blocks lie in the image: between the superblock and
    /// the inode table.
    data_table: (usize, usize),
    inode_table: ChunkReader<D>,
    directory_table: ChunkReader<D>,
    /// Where the fragment table lies in the image, if there is one.
    fragment_table: Option<(usize, usize)>,
    /// Where the export table lies in the image, if there is one.
    export_table: Option<(usize, usize)>,
    /// Where the id table lies in the image.
    id_table: (usize, usize),
    /// Where the table of extended attributes lies in the image, if there
    /// is one.
    xattr_table: Option<(usize, usize)>,
}

impl<D: Decompressor> View for Squashfs<D> {
    type V = Seq<u8>;

    /// The bytes of the image.
    closed spec fn view(&self) -> Seq<u8> {
        self.image@
    }
}

/// Where the table that starts at `start` ends.
fn end_of_table(sb: &SquashfsSuperblock, start: u64) -> (end: u64)
    ensures
        end == table_end(*sb, start),
{
    let mut best = sb.bytes_used;
    if start < sb.inode_table && sb.inode_table < best {
        best = sb.inode_table;
    }
    if start < sb.dir_table && sb.dir_table < best {
        best = sb.dir_table;
    }
    if start < sb.frag_table && sb.frag_table < best {
        best = sb.frag_table;
    }
    if start < sb.export_table && sb.export_table < best {
        best = sb.export_table;
    }
    if start < sb.id_table && sb.id_table < best {
        best = sb.id_table;
    }
    if start < sb.xattr_table && sb.xattr_table < best {
        best = sb.xattr_table;
    }
    best
}

/// The byte range of the table that starts at `start`, where it starts
/// inside the archive.
fn range_of_table(sb: &SquashfsSuperblock, start: u64) -> (r: Option<(usize, usize)>)
    requires
        sb.bytes_used <= usize::MAX,
    ensures
        match r {
            Some((from, to)) => start <= sb.bytes_used && from == start && to == table_end(
                *sb,
                start,
            ) && from <= to <= sb.bytes_used,
            None => start > sb.bytes_used,
        },
{
    if start > sb.bytes_used {
        None
    } else {
        let end = end_of_table(sb, start);
        Some((start as usize, end as usize))
    }
}

/// The byte range of a table that may be absent.
fn range_of_optional_table(sb: &SquashfsSuperblock, start: u64) -> (r: Result<
    Option<(usize, usize)>,
    VfsError,
>)
    requires
        sb.bytes_used <= usize::MAX,
    ensures
        match r {
            Ok(Some((from, to))) => start != ABSENT_TABLE && start <= sb.bytes_used && from <= to
                <= sb.bytes_used,
            Ok(None) => start == ABSENT_TABLE,
            Err(e) => e == VfsError::Corrupt && start != ABSENT_TABLE && start > sb.bytes_used,
        },
        r is Ok ==> r->Ok_0 == optional_table_range(*sb, start),
{
    if start == ABSENT_TABLE {
        Ok(None)
    } else {
        match range_of_table(sb, start) {
            Some(range) => Ok(Some(range)),
            None => Err(VfsError::Corrupt),
        }
    }
}

impl<D: Decompressor + Copy> Squashfs<D> {
    /// The reader's invariant: the image is one that [`check_image`] takes,
    /// the superblock and the two chunk readers are those of the image, and
    /// the byte ranges of the other tables are those that the superblock
    /// gives (see [`ranges_in`]).
    pub closed spec fn inv(&self) -> bool {
        &&& check_image(self.image@) == Ok::<SquashfsSuperblock, VfsError>(self.superblock)
        &&& self.spec_ranges() == ranges_in(self.superblock)
        &&& self.inode_table.wf()
        &&& self.inode_table@ == inode_chunks(self.image@)
        &&& self.inode_table.spec_decompressor() == self.decompressor
        &&& self.directory_table.wf()
        &&& self.directory_table@ == directory_chunks(self.image@)
        &&& self.directory_table.spec_decompressor() == self.decompressor
    }

    /// The byte ranges that the reader holds.
    pub closed spec fn spec_ranges(&self) -> TableRanges {
        TableRanges {
            data_table: self.data_table,
            fragment_table: self.fragment_table,
            export_table: self.export_table,
            id_table: self.id_table,
            xattr_table: self.xattr_table,
        }
    }

    /// A well-formed reader holds the byte ranges that its superblock
    /// gives.
    pub proof fn lemma_ranges(&self)
        requires
            self.inv(),
        ensures
            self.spec_ranges() == ranges_in(self.spec_superblock()),
    {
    }

    /// Where the data blocks and the tables lie that are not read through
    /// chunk readers; see [`ranges_in`].
    pub fn ranges(&self) -> (r: TableRanges)
        ensures
            r == self.spec_ranges(),
    {
        TableRanges {
            data_table: self.data_table,
            fragment_table: self.fragment_table,
            export_table: self.export_table,
            id_table: self.id_table,
            xattr_table: self.xattr_table,
        }
    }

    /// The decompressor that the reader was made with.
    pub closed spec fn spec_decompressor(&self) -> D {
        self.decompressor
    }

    /// The superblock that the reader holds.
    pub closed spec fn spec_superblock(&self) -> SquashfsSuperblock {
        self.superblock
    }

    /// What the invariant says of the superblock.
    proof fn lemma_bounds(&self)
        requires
            self.inv(),
        ensures
            SquashfsSuperblock::decode(self.image@) == Some(self.superblock),
            self.superblock.bytes_used <= self.image@.len(),
            tables_in_bounds(self.superblock),
    {
        reveal(check_image);
    }

    /// A well-formed reader holds the superblock of an image that
    /// [`check_image`] takes.
    pub proof fn lemma_superblock(&self)
        requires
            self.inv(),
        ensures
            check_image(self@) == Ok::<SquashfsSuperblock, VfsError>(self.spec_superblock()),
            SquashfsSuperblock::decode(self@) == Some(self.spec_superblock()),
    {
        reveal(check_image);
    }

    /// Opens the archive `image`: validates the superblock, locates the
    /// tables and splits the inode and the directory table into chunks.
    /// Nothing is decompressed yet.
    pub fn new(image: &[u8], decompressor: D) -> (r: Result<Self, VfsError>)
        ensures
            match check_image(image@) {
                Ok(sb) => r is Ok && r->Ok_0.inv() && r->Ok_0@ == image@ && r->Ok_0.spec_superblock() == sb
                    && r->Ok_0.spec_decompressor() == decompressor && r->Ok_0.spec_ranges()
                    == ranges_in(sb),
                Err(e) => r is Err && r->Err_0 == e,
            },
    {
        reveal(check_image);
        let superblock = SquashfsSuperblock::new(image)?;

        match superblock.compressor() {
            SquashfsCompressionType::Gzip => {},
            _ => {
                return Err(VfsError::Unsupported);
            },
        }

        if superblock.bytes_used > image.len() as u64 {
            return Err(VfsError::Corrupt);
        }
        if superblock.inode_table < SUPERBLOCK_SIZE as u64 {
            return Err(VfsError::Corrupt);
        }
        let inode_range = match range_of_table(&superblock, superblock.inode_table) {
            Some(range) => range,
            None => {
                return Err(VfsError::Corrupt);
            },
        };
        let directory_range = match range_of_table(&superblock, superblock.dir_table) {
            Some(range) => range,
            None => {
                return Err(VfsError::Corrupt);
            },
        };
        let id_table = match range_of_table(&superblock, superblock.id_table) {
            Some(range) => range,
            None => {
                return Err(VfsError::Corrupt);
            },
        };
        let fragment_table = range_of_optional_table(&superblock, superblock.frag_table)?;
        let export_table = range_of_optional_table(&superblock, superblock.export_table)?;
        let xattr_table = range_of_optional_table(&superblock, superblock.xattr_table)?;
        assert(tables_in_bounds(superblock));

        let data_table = (SUPERBLOCK_SIZE, superblock.inode_table as usize);

        let inode_table = ChunkReader::new(
            slice_subrange(image, inode_range.0, inode_range.1),
            decompressor,
        )?;
        let directory_table = ChunkReader::new(
            slice_subrange(image, directory_range.0, directory_range.1),
            decompressor,
        )?;

        let mut copy: Vec<u8> = Vec::new();
        copy.extend_from_slice(image);
        assert(copy@ =~= image@);

        Ok(
            Squashfs {
                superblock,
                image: copy,
                decompressor,
                data_table,
                inode_table,
                directory_table,
                fragment_table,
                export_table,
                id_table,
                xattr_table,
            },
        )
    }

    /// Splits an inode reference into the byte at which the inode's chunk
    /// starts in the inode table, and the inode's offset in that chunk.
    pub fn get_inode_block_offset(&self, inode: u64) -> (r: (u64, u16))
        ensures
            r.0 == inode / 0x1_0000,
            r.1 == inode % 0x1_0000,
    {
        let inode_block = (inode >> 16) & 0x0000FFFFFFFFFFFF;
        let inode_offset = (inode & 0xFFFF) as u16;
        assert(inode_block == inode / 0x1_0000 && inode_offset == inode % 0x1_0000) by (bit_vector)
            requires
                inode_block == (inode >> 16) & 0x0000FFFFFFFFFFFF,
                inode_offset == (inode & 0xFFFF) as u16,
        ;

        (inode_block, inode_offset)
    }

    /// Reads the inode of the root directory.
    pub fn read_root_dir(&mut self) -> (r: Result<Inode, VfsError>)
        requires
            old(self).inv(),
        ensures
            final(self).inv(),
            final(self)@ == old(self)@,
            final(self).spec_decompressor() == old(self).spec_decompressor(),
            r == inode_at(
                &old(self).spec_decompressor(),
                old(self)@,
                (old(self).spec_superblock().root_inode / 0x1_0000) as int,
                (old(self).spec_superblock().root_inode % 0x1_0000) as int,
            ),
    {
        self.read_inode(self.superblock.root_inode)
    }

    /// Reads the inode that the reference `inode` names.
    pub fn read_inode(&mut self, inode: u64) -> (r: Result<Inode, VfsError>)
        requires
            old(self).inv(),
        ensures
            final(self).inv(),
            final(self)@ == old(self)@,
            final(self).spec_decompressor() == old(self).spec_decompressor(),
            r == inode_at(
                &old(self).spec_decompressor(),
                old(self)@,
                (inode / 0x1_0000) as int,
                (inode % 0x1_0000) as int,
            ),
    {
        let (inode_block, inode_offset) = self.get_inode_block_offset(inode);
        self.read_inode_at(inode_block, inode_offset)
    }

    /// Reads the inode that lies `inode_offset` bytes into the chunk at byte
    /// `inode_block` of the inode table.
    pub fn read_inode_at(&mut self, inode_block: u64, inode_offset: u16) -> (r: Result<
        Inode,
        VfsError,
    >)
        requires
            old(self).inv(),
        ensures
            final(self).inv(),
            final(self)@ == old(self)@,
            final(self).spec_decompressor() == old(self).spec_decompressor(),
            r == inode_at(
                &old(self).spec_decompressor(),
                old(self)@,
                inode_block as int,
                inode_offset as int,
            ),
    {
        let tag = self.inode_table.get_slice(inode_block, inode_offset, 2)?;
        let file_type = match InodeFileType::from_tag(read_le_u16(tag.as_slice(), 0)) {
            Some(t) => t,
            None => {
                return Err(VfsError::Corrupt);
            },
        };
        let inode_size = match file_type.record_size() {
            Some(n) => n,
            None => {
                return Err(VfsError::Unsupported);
            },
        };
        let inode_bytes = self.inode_table.get_slice(inode_block, inode_offset, inode_size)?;

        Inode::from_bytes(inode_bytes.as_slice())
    }

    /// Looks `name` up in the directory `dir`: scans the directory's listing
    /// run by run and entry by entry, and reads the inode of the first entry
    /// whose name is `name`, byte for byte.
    pub fn find_entry_in_directory(&mut self, dir: Inode, name: &[u8]) -> (r: Result<
        Inode,
        VfsError,
    >)
        requires
            old(self).inv(),
        ensures
            final(self).inv(),
            final(self)@ == old(self)@,
            final(self).spec_decompressor() == old(self).spec_decompressor(),
            r == dir_lookup(&old(self).spec_decompressor(), old(self)@, dir, name@),
    {
        let (directory_block, directory_offset, dir_size): (u64, u16, usize) = match dir {
            Inode::BasicDirectory(dir) => (
                dir.block_index as u64,
                dir.block_offset,
                dir.file_size as usize,
            ),
            Inode::ExtendedDirectory(dir) => (
                dir.block_index as u64,
                dir.block_offset,
                dir.file_size as usize,
            ),
            _ => {
                return Err(VfsError::NotFound);
            },
        };

        let ghost d = self.decompressor;
        let ghost image = self.image@;
        let mut offset: usize = 0;
        let mut i: u32 = 0;
        let mut entry_count: u32 = 0;
        let mut start: u32 = 0;

        loop
            invariant
                self.inv(),
                self.image@ == image,
                self.decompressor == d,
                self.superblock == old(self).superblock,
                image == old(self).image@,
                d == old(self).decompressor,
                i <= entry_count,
                dir_lookup(&d, image, dir, name@) == dir_scan(
                    &d,
                    image,
                    directory_block as int,
                    directory_offset as int,
                    dir_size as int,
                    offset as int,
                    i as int,
                    entry_count as int,
                    start as int,
                    name@,
                ),
            decreases
                if offset < dir_size {
                    dir_size - offset
                } else {
                    0
                },
        {
            if offset >= dir_size {
                return Err(VfsError::NotFound);
            }
            if offset > 0xFFFF || directory_offset as usize + offset + 6 > 0xFFFF {
                return Err(VfsError::Corrupt);
            }
            let position: u16 = (directory_offset as usize + offset) as u16;

            if i == entry_count {
                let bytes = self.directory_table.get_slice(
                    directory_block,
                    position,
                    DIRECTORY_HEADER_SIZE,
                )?;
                let directory_table_header = DirectoryTableHeader::from_bytes(bytes.as_slice())?;

                entry_count = directory_table_header.entry_count;
                start = directory_table_header.start;
                i = 0;
                offset += DIRECTORY_HEADER_SIZE;
            } else {
                let size_bytes = self.directory_table.get_slice(directory_block, position + 6, 2)?;
                let name_size = read_le_u16(size_bytes.as_slice(), 0) as usize + 1;

                let bytes = self.directory_table.get_slice(
                    directory_block,
                    position,
                    DIRECTORY_ENTRY_HEAD + name_size,
                )?;
                let directory_entry = DirectoryTableEntry::from_bytes(bytes.as_slice())?;

                offset += DIRECTORY_ENTRY_HEAD + name_size;

                if bytes_eq(directory_entry.name.as_slice(), name) {
                    return self.read_inode_at(start as u64, directory_entry.offset);
                }
                i += 1;
            }
        }
    }

    /// The content of a table; see [`table_bytes`].
    pub fn get_decompressed_table(&self, table: &[u8], metadata_block: (bool, Option<bool>)) -> (r:
        Result<Vec<u8>, VfsError>)
        ensures
            same_bytes(r, table_bytes(&self.spec_decompressor(), table@, metadata_block)),
    {
        if metadata_block.0 && table.len() < 2 {
            return Err(VfsError::Corrupt);
        }
        let table_is_compressed = if !metadata_block.0 {
            match metadata_block.1 {
                Some(compressed) => compressed,
                None => false,
            }
        } else {
            read_le_u16(table, 0) & 0x8000 == 0
        };

        let bytes = if metadata_block.0 {
            slice_subrange(table, 2, table.len())
        } else {
            table
        };
        assert(bytes@ =~= if metadata_block.0 {
            table@.skip(2)
        } else {
            table@
        });

        if table_is_compressed {
            self.decompressor.decompress(bytes)
        } else {
            let mut buffer: Vec<u8> = Vec::new();
            buffer.extend_from_slice(bytes);
            assert(buffer@ =~= bytes@);
            Ok(buffer)
        }
    }

    /// Finds the chunk that holds the entry of fragment `idx`; see
    /// [`fragment_chunk`].
    fn locate_fragment_chunk(&self, idx: u32) -> (r: Result<(usize, usize), VfsError>)
        requires
            self.inv(),
        ensures
            match (r, fragment_chunk(self.image@, self.superblock, idx)) {
                (Ok((ptr, n)), Ok((p, m))) => ptr == p && n == m && ptr + n <= self.image@.len(),
                (Err(e1), Err(e2)) => e1 == e2,
                _ => false,
            },
    {
        proof {
            self.lemma_bounds();
        }
        let bytes_used: u64 = self.superblock.bytes_used;
        let image = self.image.as_slice();
        assert(bytes_used <= image.len() <= usize::MAX);
        let frag_table: u64 = self.superblock.frag_table;
        if frag_table == ABSENT_TABLE {
            return Err(VfsError::Corrupt);
        }
        let slot_offset: u64 = 8 * ((idx / FRAGMENTS_PER_CHUNK) as u64);
        if bytes_used - frag_table < slot_offset || bytes_used - frag_table - slot_offset < 8 {
            return Err(VfsError::Corrupt);
        }
        let pointer = read_le_u64(image, (frag_table + slot_offset) as usize);
        if pointer > bytes_used || bytes_used - pointer < 2 {
            return Err(VfsError::Corrupt);
        }
        let header = read_le_u16(image, pointer as usize);
        assert(header & 0x7FFF <= 0x7FFF) by (bit_vector);
        let fragment_block_size: u64 = (header & 0x7FFF) as u64 + 2;
        if bytes_used - pointer < fragment_block_size {
            return Err(VfsError::Corrupt);
        }
        Ok((pointer as usize, fragment_block_size as usize))
    }

    /// Resolves fragment `idx` through the fragment table; see
    /// [`fragment_entry`].
    pub fn read_fragment_entry(&self, idx: u32) -> (r: Result<FragmentEntry, VfsError>)
        requires
            self.inv(),
        ensures
            r == fragment_entry(&self.spec_decompressor(), self@, idx),
    {
        proof {
            self.lemma_bounds();
        }
        let (pointer, fragment_block_size) = self.locate_fragment_chunk(idx)?;
        assert(pointer + fragment_block_size <= self.image.len() <= usize::MAX);
        let fragment_block_raw = slice_subrange(
            self.image.as_slice(),
            pointer,
            pointer + fragment_block_size,
        );
        let fragment_block = self.get_decompressed_table(fragment_block_raw, (true, None))?;

        let at: usize = FRAGMENT_ENTRY_SIZE * ((idx % FRAGMENTS_PER_CHUNK) as usize);
        if fragment_block.len() < at + FRAGMENT_ENTRY_SIZE {
            return Err(VfsError::Corrupt);
        }
        let fragment_start = read_le_u64(fragment_block.as_slice(), at);
        let fragment_size = read_le_u32(fragment_block.as_slice(), at + 8);
        let fragment_compressed = fragment_size & FRAGMENT_STORED == 0;
        let fragment_size = fragment_size & 0xFEFFFFFF;

        Ok(
            FragmentEntry {
                start: fragment_start,
                size: fragment_size,
                compressed: fragment_compressed,
            },
        )
    }

    /// Fetches the bytes among which the content of `file` lies; see
    /// [`file_source`].
    pub fn read_file_source(&self, file: &BasicFileInode) -> (r: Result<Vec<u8>, VfsError>)
        requires
            self.inv(),
        ensures
            same_bytes(r, file_source(&self.spec_decompressor(), self@, *file)),
    {
        proof {
            self.lemma_bounds();
        }
        let image = self.image.as_slice();
        assert(self.superblock.bytes_used <= image.len() <= usize::MAX);
        if file.frag_idx == NO_FRAGMENT {
            self.get_decompressed_table(
                slice_subrange(image, SUPERBLOCK_SIZE, self.superblock.inode_table as usize),
                (false, Some(!self.superblock.features().uncompressed_data_blocks)),
            )
        } else {
            // Tail end packing
            let fragment = self.read_fragment_entry(file.frag_idx)?;
            if fragment.start > self.superblock.bytes_used || self.superblock.bytes_used
                - fragment.start < fragment.size as u64 {
                return Err(VfsError::Corrupt);
            }
            let from: usize = fragment.start as usize;
            let to: usize = (fragment.start + fragment.size as u64) as usize;
            self.get_decompressed_table(
                slice_subrange(image, from, to),
                (false, Some(fragment.compressed)),
            )
        }
    }

    /// Reads up to `count` bytes of `file`, from `offset` on; see
    /// [`file_read`].
    pub fn read_file(&self, file: &BasicFileInode, count: usize, offset: usize) -> (r: Result<
        Vec<u8>,
        VfsError,
    >)
        requires
            self.inv(),
        ensures
            same_bytes(
                r,
                file_read(&self.spec_decompressor(), self@, *file, count as int, offset as int),
            ),
    {
        let data_table: Vec<u8> = self.read_file_source(file)?;

        let file_size: u64 = file.file_size as u64;
        let begin: u64 = if offset as u64 <= file_size {
            offset as u64
        } else {
            file_size
        };
        let n: u64 = if count as u64 <= file_size - begin {
            count as u64
        } else {
            file_size - begin
        };
        let block_offset: u64 = file.block_offset as u64 + begin;
        if block_offset + n > data_table.len() as u64 {
            return Err(VfsError::Corrupt);
        }
        let mut block_data: Vec<u8> = Vec::new();
        block_data.extend_from_slice(
            slice_subrange(data_table.as_slice(), block_offset as usize, (block_offset + n) as usize),
        );
        assert(block_data@ =~= data_table@.subrange(block_offset as int, block_offset + n));

        Ok(block_data)
    }
}

/// The kind of node that an inode stands for.
pub open spec fn spec_node_type(inode: Inode) -> VNodeType {
    if inode.spec_is_directory() {
        VNodeType::Directory
    } else {
        VNodeType::Regular
    }
}

/// The node that stands for `inode` in the mount `vfsp`, where there is an
/// inode.
pub open spec fn node_for(found: Result<Inode, VfsError>, vfsp: usize) -> Result<
    VNode<Inode>,
    VfsError,
> {
    match found {
        Ok(inode) => Ok(VNode::spec_new(inode, spec_node_type(inode), vfsp)),
        Err(e) => Err(e),
    }
}

/// The root directory of the archive `image`, as a node of the mount
/// `vfsp`.
pub open spec fn root_node<D: Decompressor>(d: &D, image: Seq<u8>, vfsp: usize) -> Result<
    VNode<Inode>,
    VfsError,
> {
    let sb = SquashfsSuperblock::decode(image)->Some_0;
    match inode_at(d, image, (sb.root_inode / 0x1_0000) as int, (sb.root_inode % 0x1_0000) as int) {
        Ok(inode) => Ok(VNode::spec_new(inode, VNodeType::Directory, vfsp)),
        Err(e) => Err(e),
    }
}

/// The archive as a file system. It is read-only: it can be mounted and
/// unmounted and hands out its root directory, and implements nothing else.
impl<D: Decompressor + Copy> FsOps for Squashfs<D> {
    type Node = Inode;

    open spec fn wf(&self) -> bool {
        self.inv()
    }

    open spec fn supports(&self, op: FsOp) -> bool {
        op == FsOp::Mount || op == FsOp::Unmount
    }

    /// Mounting an archive succeeds and changes nothing.
    open spec fn mount_result(
        &self,
        path: Seq<u8>,
        vfsp: usize,
        after: &Self,
        r: Result<(), VfsError>,
    ) -> bool {
        r is Ok && *after == *self
    }

    /// The root is the inode that the superblock names. Asking for it
    /// leaves the image and the decompressor as they are.
    open spec fn root_result(
        &self,
        vfsp: usize,
        after: &Self,
        r: Result<VNode<Inode>, VfsError>,
    ) -> bool {
        &&& r == root_node(&self.spec_decompressor(), self@, vfsp)
        &&& after@ == self@
        &&& after.spec_decompressor() == self.spec_decompressor()
    }

    /// An archive has no file identifiers.
    open spec fn fid_result(&self, path: Seq<u8>, vfsp: usize, r: Option<FileId>) -> bool {
        r is None
    }

    fn mount(&mut self, _path: &[u8], _vfsp: usize) -> (r: Result<(), VfsError>)
        ensures
            *final(self) == *old(self),
    {
        Ok(())
    }

    fn unmount(&mut self, _vfsp: usize) -> (r: Result<(), VfsError>)
        ensures
            r is Ok,
            *final(self) == *old(self),
    {
        Ok(())
    }

    fn root(&mut self, vfsp: usize) -> (r: Result<VNode<Inode>, VfsError>)
        ensures
            final(self)@ == old(self)@,
            final(self).spec_decompressor() == old(self).spec_decompressor(),
    {
        proof {
            self.lemma_superblock();
        }
        let root_dir = self.read_root_dir()?;

        Ok(VNode::new(root_dir, VNodeType::Directory, vfsp))
    }

    fn fid(&mut self, _path: &[u8], _vfsp: usize) -> (r: Option<FileId>) {
        None
    }

    fn statfs(&mut self, _vfsp: usize) -> (r: Result<StatFs, VfsError>) {
        Err(VfsError::Unsupported)
    }

    fn sync(&mut self, _vfsp: usize) -> (r: Result<(), VfsError>) {
        Err(VfsError::Unsupported)
    }

    fn vget(&mut self, _fid: FileId, _vfsp: usize) -> (r: Result<VNode<Inode>, VfsError>) {
        Err(VfsError::Unsupported)
    }
}

/// An inode as a node of the archive. Files can be read and directories
/// searched; nothing can be changed.
impl<D: Decompressor + Copy> VNodeOperations<Squashfs<D>> for Inode {
    open spec fn supports(&self, op: VNodeOp) -> bool {
        false
    }

    /// A file is as long as its inode says; a directory has no bytes to
    /// read.
    open spec fn spec_len(&self) -> usize {
        match self {
            Inode::BasicFile(file) => file.file_size as usize,
            _ => 0,
        }
    }

    open spec fn open_result(
        &self,
        fs: &Squashfs<D>,
        f: u32,
        c: UserCred,
        r: Result<(), VfsError>,
    ) -> bool {
        r is Ok
    }

    open spec fn close_result(
        &self,
        fs: &Squashfs<D>,
        f: u32,
        c: UserCred,
        r: Result<(), VfsError>,
    ) -> bool {
        r is Ok
    }

    /// A file reads as [`file_read`] says; a directory does not read.
    open spec fn read_result(
        &self,
        fs: &Squashfs<D>,
        count: usize,
        offset: usize,
        r: Result<Seq<u8>, VfsError>,
    ) -> bool {
        r == match self {
            Inode::BasicFile(file) => file_read(
                &fs.spec_decompressor(),
                fs@,
                *file,
                count as int,
                offset as int,
            ),
            _ => Err(VfsError::Unsupported),
        }
    }

    /// A name resolves as [`dir_lookup`] says.
    open spec fn lookup_result(
        &self,
        fs: &Squashfs<D>,
        nm: Seq<u8>,
        vfsp: usize,
        r: Result<VNode<Inode>, VfsError>,
    ) -> bool {
        r == node_for(dir_lookup(&fs.spec_decompressor(), fs@, *self, nm), vfsp)
    }

    fn open(&mut self, _fs: &mut Squashfs<D>, _f: u32, _c: UserCred) -> (r: Result<(), VfsError>)
        ensures
            *final(self) == *old(self),
            *final(_fs) == *old(_fs),
    {
        Ok(())
    }

    fn close(&mut self, _fs: &mut Squashfs<D>, _f: u32, _c: UserCred) -> (r: Result<(), VfsError>)
        ensures
            *final(self) == *old(self),
            *final(_fs) == *old(_fs),
    {
        Ok(())
    }

    fn read(&mut self, fs: &mut Squashfs<D>, count: usize, offset: usize, _f: u32, _c: UserCred) -> (r:
        Result<Vec<u8>, VfsError>)
        ensures
            *final(self) == *old(self),
            *final(fs) == *old(fs),
    {
        match self {
            Inode::BasicFile(file) => fs.read_file(file, count, offset),
            _ => Err(VfsError::Unsupported),
        }
    }

    fn write(&mut self, _fs: &mut Squashfs<D>, _offset: usize, _buf: &[u8], _f: u32, _c: UserCred) -> (r:
        Result<(), VfsError>) {
        Err(VfsError::Unsupported)
    }

    fn ioctl(&mut self, _fs: &mut Squashfs<D>, _com: u32, _d: usize, _f: u32, _c: UserCred) -> (r:
        Result<(), VfsError>) {
        Err(VfsError::Unsupported)
    }

    fn getattr(&mut self, _fs: &mut Squashfs<D>, _c: UserCred) -> (r: Result<VAttr, VfsError>) {
        Err(VfsError::Unsupported)
    }

    fn setattr(&mut self, _fs: &mut Squashfs<D>, _va: VAttr, _c: UserCred) -> (r: Result<
        (),
        VfsError,
    >) {
        Err(VfsError::Unsupported)
    }

    fn access(&mut self, _fs: &mut Squashfs<D>, _m: u32, _c: UserCred) -> (r: Result<(), VfsError>) {
        Err(VfsError::Unsupported)
    }

    fn lookup(&mut self, fs: &mut Squashfs<D>, nm: &[u8], _c: UserCred, vfsp: usize) -> (r: Result<
        VNode<Inode>,
        VfsError,
    >)
        ensures
            *final(self) == *old(self),
            final(fs)@ == old(fs)@,
            final(fs).spec_decompressor() == old(fs).spec_decompressor(),
    {
        let inode = fs.find_entry_in_directory(*self, nm)?;
        let vnode_type = match inode {
            Inode::BasicDirectory(_) | Inode::ExtendedDirectory(_) => VNodeType::Directory,
            Inode::BasicFile(_) => VNodeType::Regular,
        };

        let vnode = VNode::new(inode, vnode_type, vfsp);

        Ok(vnode)
    }

    fn create(
        &mut self,
        _fs: &mut Squashfs<D>,
        _nm: &[u8],
        _va: VAttr,
        _e: u32,
        _m: u32,
        _c: UserCred,
        _vfsp: usize,
    ) -> (r: Result<VNode<Inode>, VfsError>) {
        Err(VfsError::Unsupported)
    }

    fn link(
        &mut self,
        _fs: &mut Squashfs<D>,
        _target_dir: &Inode,
        _target_name: &[u8],
        _c: UserCred,
    ) -> (r: Result<(), VfsError>) {
        Err(VfsError::Unsupported)
    }

    fn rename(
        &mut self,
        _fs: &mut Squashfs<D>,
        _nm: &[u8],
        _target_dir: &Inode,
        _target_name: &[u8],
        _c: UserCred,
    ) -> (r: Result<(), VfsError>) {
        Err(VfsError::Unsupported)
    }

    fn mkdir(&mut self, _fs: &mut Squashfs<D>, _nm: &[u8], _va: VAttr, _c: UserCred, _vfsp: usize) -> (r:
        Result<VNode<Inode>, VfsError>) {
        Err(VfsError::Unsupported)
    }

    fn readdir(&mut self, _fs: &mut Squashfs<D>, _uiop: &UIO, _c: UserCred) -> (r: Result<
        (),
        VfsError,
    >) {
        Err(VfsError::Unsupported)
    }

    fn symlink(
        &mut self,
        _fs: &mut Squashfs<D>,
        _link_name: &[u8],
        _va: VAttr,
        _target_name: &[u8],
        _c: UserCred,
    ) -> (r: Result<(), VfsError>) {
        Err(VfsError::Unsupported)
    }

    fn readlink(&mut self, _fs: &mut Squashfs<D>, _uiop: &UIO, _c: UserCred) -> (r: Result<
        (),
        VfsError,
    >) {
        Err(VfsError::Unsupported)
    }

    fn fsync(&mut self, _fs: &mut Squashfs<D>, _c: UserCred) -> (r: Result<(), VfsError>) {
        Err(VfsError::Unsupported)
    }

    fn len(&self) -> (n: usize) {
        match self {
            Inode::BasicFile(file) => file.file_size as usize,
            _ => 0,
        }
    }
}

/// Opens the initial root file system from the image that the boot loader
/// handed over, with the zlib decompressor.
///
/// `NotFound` where the boot loader handed over no image; else as
/// [`Squashfs::new`].
pub fn init(initramfs: Option<&[u8]>) -> (r: Result<Squashfs<Gzip>, VfsError>)
    ensures
        match initramfs {
            None => r is Err && r->Err_0 == VfsError::NotFound,
            Some(image) => match check_image(image@) {
                Ok(sb) => r is Ok && r->Ok_0.inv() && r->Ok_0@ == image@
                    && r->Ok_0.spec_superblock() == sb,
                Err(e) => r is Err && r->Err_0 == e,
            },
        },
{
    match initramfs {
        None => Err(VfsError::NotFound),
        Some(image) => Squashfs::new(image, Gzip),
    }
}

} // verus!
