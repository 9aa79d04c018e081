//! The archive superblock: the fixed 96-byte header that describes an image's
//! geometry and says where its tables lie.

use crate::drivers::fs::vfs::VfsError;
use crate::libs::endian::{le_u16, le_u32, le_u64, read_le_u16, read_le_u32, read_le_u64};
use vstd::arithmetic::power2::{lemma2_to64, lemma_pow2_strictly_increases, pow2};
use vstd::bits::lemma_u32_shl_is_mul;
use vstd::prelude::*;

verus! {

/// Length of the superblock in bytes.
pub const SUPERBLOCK_SIZE: usize = 96;

/// The magic number that opens every archive image.
pub const SQUASHFS_MAGIC: u32 = 0x73717368;

/// Largest block size an image may declare: 1 MiB.
pub const MAX_BLOCK_SIZE: u32 = 0x10_0000;

/// Table offset that marks a table as absent.
pub const ABSENT_TABLE: u64 = 0xFFFF_FFFF_FFFF_FFFF;

/// The compression scheme an image was built with.
#[derive(Clone, Copy, Debug, PartialEq, Eq, Structural)]
pub enum SquashfsCompressionType {
    Gzip,
    Lzma,
    Lzo,
    Xz,
    Lz4,
    Zstd,
}

impl SquashfsCompressionType {
    /// The scheme that the on-disk identifier `value` stands for.
    pub open spec fn of_id(value: u16) -> Option<Self> {
        if value == 1 {
            Some(Self::Gzip)
        } else if value == 2 {
            Some(Self::Lzma)
        } else if value == 3 {
            Some(Self::Lzo)
        } else if value == 4 {
            Some(Self::Xz)
        } else if value == 5 {
            Some(Self::Lz4)
        } else if value == 6 {
            Some(Self::Zstd)
        } else {
            None
        }
    }

    /// Decodes an on-disk compressor identifier; `None` for a value outside
    /// the six the format defines.
    pub fn from_id(value: u16) -> (r: Option<Self>)
        ensures
            r == Self::of_id(value),
    {
        match value {
            1 => Some(Self::Gzip),
            2 => Some(Self::Lzma),
            3 => Some(Self::Lzo),
            4 => Some(Self::Xz),
            5 => Some(Self::Lz4),
            6 => Some(Self::Zstd),
            _ => None,
        }
    }
}

const UNCOMPRESSED_INODES: u16 = 0x0001;

const UNCOMPRESSED_DATA_BLOCKS: u16 = 0x0002;

const RESERVED: u16 = 0x0004;

const UNCOMPRESSED_FRAGMENTS: u16 = 0x0008;

const UNUSED_FRAGMENTS: u16 = 0x0010;

const FRAGMENTS_ALWAYS_PRESENT: u16 = 0x0020;

const DEDUPLICATED_DATA: u16 = 0x0040;

const PRESENT_NFS_TABLE: u16 = 0x0080;

const UNCOMPRESSED_XATTRS: u16 = 0x0100;

const NO_XATTRS: u16 = 0x0200;

const PRESENT_COMPRESSOR_OPTIONS: u16 = 0x0400;

const UNCOMPRESSED_ID_TABLE: u16 = 0x0800;

/// The superblock's flag word, one field per bit.
#[derive(Clone, Copy, Debug, PartialEq, Eq, Structural)]
pub struct SquashfsFeatures {
    pub uncompressed_inodes: bool,
    pub uncompressed_data_blocks: bool,
    pub _reserved: bool,
    pub uncompressed_fragments: bool,
    pub unused_fragments: bool,
    pub fragments_always_present: bool,
    pub deduplicated_data: bool,
    pub nfs_table_present: bool,
    pub uncompressed_xattrs: bool,
    pub no_xattrs: bool,
    pub compressor_options_present: bool,
    pub uncompressed_id_table: bool,
}

impl SquashfsFeatures {
    /// The features that the flag word `flags` switches on: bit 0 is
    /// `uncompressed_inodes`, bit 1 `uncompressed_data_blocks`, and so on up
    /// to bit 11, `uncompressed_id_table`.
    pub open spec fn of_flags(flags: u16) -> SquashfsFeatures {
        SquashfsFeatures {
            uncompressed_inodes: flags & 0x0001 != 0,
            uncompressed_data_blocks: flags & 0x0002 != 0,
            _reserved: flags & 0x0004 != 0,
            uncompressed_fragments: flags & 0x0008 != 0,
            unused_fragments: flags & 0x0010 != 0,
            fragments_always_present: flags & 0x0020 != 0,
            deduplicated_data: flags & 0x0040 != 0,
            nfs_table_present: flags & 0x0080 != 0,
            uncompressed_xattrs: flags & 0x0100 != 0,
            no_xattrs: flags & 0x0200 != 0,
            compressor_options_present: flags & 0x0400 != 0,
            uncompressed_id_table: flags & 0x0800 != 0,
        }
    }
}

/// The decoded superblock.
#[derive(Clone, Copy, Debug, PartialEq, Eq, Structural)]
pub struct SquashfsSuperblock {
    pub magic: u32,
    pub inode_count: u32,
    pub mod_time: u32,
    pub block_size: u32,
    pub frag_count: u32,
    pub compressor: SquashfsCompressionType,
    pub block_log: u16,
    pub flags: u16,
    pub id_count: u16,
    pub ver_major: u16,
    pub ver_minor: u16,
    pub root_inode: u64,
    pub bytes_used: u64,
    pub id_table: u64,
    pub xattr_table: u64,
    pub inode_table: u64,
    pub dir_table: u64,
    pub frag_table: u64,
    pub export_table: u64,
}

impl SquashfsSuperblock {
    /// What makes a superblock acceptable: the magic number, version 4.0, and
    /// a block size that is the power of two its `block_log` field names and
    /// is at most 1 MiB.
    pub open spec fn valid(self) -> bool {
        &&& self.magic == SQUASHFS_MAGIC
        &&& self.ver_major == 4
        &&& self.ver_minor == 0
        &&& self.block_log <= 20
        &&& self.block_size as nat == pow2(self.block_log as nat)
    }

    /// The fields as they lie in the first 96 bytes of `bytes`, all
    /// little-endian, with the compressor identifier decoded to `compressor`.
    pub open spec fn layout(bytes: Seq<u8>, compressor: SquashfsCompressionType) -> Self {
        SquashfsSuperblock {
            magic: le_u32(bytes, 0),
            inode_count: le_u32(bytes, 4),
            mod_time: le_u32(bytes, 8),
            block_size: le_u32(bytes, 12),
            frag_count: le_u32(bytes, 16),
            compressor,
            block_log: le_u16(bytes, 22),
            flags: le_u16(bytes, 24),
            id_count: le_u16(bytes, 26),
            ver_major: le_u16(bytes, 28),
            ver_minor: le_u16(bytes, 30),
            root_inode: le_u64(bytes, 32),
            bytes_used: le_u64(bytes, 40),
            id_table: le_u64(bytes, 48),
            xattr_table: le_u64(bytes, 56),
            inode_table: le_u64(bytes, 64),
            dir_table: le_u64(bytes, 72),
            frag_table: le_u64(bytes, 80),
            export_table: le_u64(bytes, 88),
        }
    }

    /// The superblock that `bytes` begins with, if there is a valid one:
    /// at least 96 bytes, a known compressor identifier at offset 20, and
    /// fields that satisfy [`Self::valid`].
    #[verifier::opaque]
    pub open spec fn decode(bytes: Seq<u8>) -> Option<Self> {
        if bytes.len() < 96 {
            None
        } else {
            match SquashfsCompressionType::of_id(le_u16(bytes, 20)) {
                None => None,
                Some(compressor) => {
                    let sb = Self::layout(bytes, compressor);
                    if sb.valid() {
                        Some(sb)
                    } else {
                        None
                    }
                },
            }
        }
    }

    /// A valid block size is a power of two between 1 byte and 1 MiB.
    pub proof fn lemma_valid_block_size(self)
        requires
            self.valid(),
        ensures
            0 < self.block_size <= MAX_BLOCK_SIZE,
            self.block_size & ((self.block_size - 1) as u32) == 0,
            self.block_size == 1u32 << (self.block_log as u32),
    {
        lemma_shift_is_pow2(self.block_log);
        let bs = self.block_size;
        let k = self.block_log as u32;
        assert(bs & ((bs - 1) as u32) == 0 && 0 < bs <= 0x10_0000) by (bit_vector)
            requires
                bs == 1u32 << k,
                k <= 20,
        ;
    }

    /// Parses and validates the superblock at the start of an image.
    ///
    /// Every rejection is `Corrupt`: too few bytes, a wrong magic number, a
    /// version other than 4.0, an unknown compressor, a block size over
    /// 1 MiB, not a power of two, or at odds with `block_log`.
    pub fn new(bytes: &[u8]) -> (r: Result<Self, VfsError>)
        ensures
            match r {
                Ok(sb) => Self::decode(bytes@) == Some(sb),
                Err(e) => e == VfsError::Corrupt && Self::decode(bytes@) is None,
            },
    {
        reveal(SquashfsSuperblock::decode);
        if bytes.len() < SUPERBLOCK_SIZE {
            return Err(VfsError::Corrupt);
        }
        let compressor = match SquashfsCompressionType::from_id(read_le_u16(bytes, 20)) {
            Some(c) => c,
            None => {
                return Err(VfsError::Corrupt);
            },
        };
        let superblock = Self {
            magic: read_le_u32(bytes, 0),
            inode_count: read_le_u32(bytes, 4),
            mod_time: read_le_u32(bytes, 8),
            block_size: read_le_u32(bytes, 12),
            frag_count: read_le_u32(bytes, 16),
            compressor,
            block_log: read_le_u16(bytes, 22),
            flags: read_le_u16(bytes, 24),
            id_count: read_le_u16(bytes, 26),
            ver_major: read_le_u16(bytes, 28),
            ver_minor: read_le_u16(bytes, 30),
            root_inode: read_le_u64(bytes, 32),
            bytes_used: read_le_u64(bytes, 40),
            id_table: read_le_u64(bytes, 48),
            xattr_table: read_le_u64(bytes, 56),
            inode_table: read_le_u64(bytes, 64),
            dir_table: read_le_u64(bytes, 72),
            frag_table: read_le_u64(bytes, 80),
            export_table: read_le_u64(bytes, 88),
        };
        assert(superblock == Self::layout(bytes@, compressor));

        if superblock.magic != SQUASHFS_MAGIC {
            return Err(VfsError::Corrupt);
        }
        if superblock.ver_major != 4 || superblock.ver_minor != 0 {
            return Err(VfsError::Corrupt);
        }
        if superblock.block_size > MAX_BLOCK_SIZE {
            proof {
                if superblock.block_log <= 20 {
                    lemma_shift_is_pow2(superblock.block_log);
                }
            }
            return Err(VfsError::Corrupt);
        }
        if superblock.block_log > 20 {
            return Err(VfsError::Corrupt);
        }
        proof {
            lemma_shift_is_pow2(superblock.block_log);
        }
        if superblock.block_size != (1u32 << (superblock.block_log as u32)) {
            return Err(VfsError::Corrupt);
        }
        Ok(superblock)
    }

    /// The compression scheme of the image.
    pub fn compressor(&self) -> (c: SquashfsCompressionType)
        ensures
            c == self.compressor,
    {
        self.compressor
    }

    /// The flag word, taken apart.
    pub fn features(&self) -> (f: SquashfsFeatures)
        ensures
            f == SquashfsFeatures::of_flags(self.flags),
    {
        let uncompressed_inodes = (self.flags & UNCOMPRESSED_INODES) != 0;
        let uncompressed_data_blocks = (self.flags & UNCOMPRESSED_DATA_BLOCKS) != 0;
        let _reserved = (self.flags & RESERVED) != 0;
        let uncompressed_fragments = (self.flags & UNCOMPRESSED_FRAGMENTS) != 0;
        let unused_fragments = (self.flags & UNUSED_FRAGMENTS) != 0;
        let fragments_always_present = (self.flags & FRAGMENTS_ALWAYS_PRESENT) != 0;
        let deduplicated_data = (self.flags & DEDUPLICATED_DATA) != 0;
        let nfs_table_present = (self.flags & PRESENT_NFS_TABLE) != 0;
        let uncompressed_xattrs = (self.flags & UNCOMPRESSED_XATTRS) != 0;
        let no_xattrs = (self.flags & NO_XATTRS) != 0;
        let compressor_options_present = (self.flags & PRESENT_COMPRESSOR_OPTIONS) != 0;
        let uncompressed_id_table = (self.flags & UNCOMPRESSED_ID_TABLE) != 0;

        SquashfsFeatures {
            uncompressed_inodes,
            uncompressed_data_blocks,
            _reserved,
            uncompressed_fragments,
            unused_fragments,
            fragments_always_present,
            deduplicated_data,
            nfs_table_present,
            uncompressed_xattrs,
            no_xattrs,
            compressor_options_present,
            uncompressed_id_table,
        }
    }
}

/// For a block log of at most 20, shifting 1 left by it gives that power of
/// two, which is at most 1 MiB.
proof fn lemma_shift_is_pow2(log: u16)
    requires
        log <= 20,
    ensures
        (1u32 << (log as u32)) as nat == pow2(log as nat),
        pow2(log as nat) <= 0x10_0000,
{
    lemma2_to64();
    if log < 20 {
        lemma_pow2_strictly_increases(log as nat, 20);
    }
    lemma_u32_shl_is_mul(1u32, log as u32);
}

} // verus!
