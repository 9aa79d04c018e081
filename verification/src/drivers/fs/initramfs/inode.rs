//! Inode records of the archive format.
//!
//! Every record opens with a 16-byte header whose first two bytes tag the
//! kind of file. Only basic files and basic and extended directories are
//! decoded; the other kinds are recognised and declined.

use crate::drivers::fs::vfs::VfsError;
use crate::libs::endian::{le_u16, le_u32, read_le_u16, read_le_u32};
use vstd::prelude::*;

verus! {

/// Length of the header that opens every inode record.
pub const INODE_HEADER_SIZE: usize = 16;

/// Length of a basic directory record.
pub const BASIC_DIRECTORY_SIZE: usize = 32;

/// Length of an extended directory record.
pub const EXTENDED_DIRECTORY_SIZE: usize = 40;

/// Length of a basic file record.
pub const BASIC_FILE_SIZE: usize = 32;

/// Fragment index of a file that has no fragment.
pub const NO_FRAGMENT: u32 = 0xFFFF_FFFF;

/// The kinds of file the format knows.
#[derive(Clone, Copy, Debug, PartialEq, Eq, Structural)]
pub enum InodeFileType {
    BasicDirectory,
    BasicFile,
    BasicSymlink,
    BasicBlockDevice,
    BasicCharDevice,
    BasicPipe,
    BasicSocked,
    ExtendedDirectory,
    ExtendedFile,
    ExtendedSymlink,
    ExtendedBlockDevice,
    ExtendedPipe,
    ExtendedSocked,
}

impl InodeFileType {
    /// The kind that the on-disk tag `value` stands for: 1 to 13, in the
    /// order of the variants.
    pub open spec fn of_tag(value: u16) -> Option<Self> {
        if value == 1 {
            Some(Self::BasicDirectory)
        } else if value == 2 {
            Some(Self::BasicFile)
        } else if value == 3 {
            Some(Self::BasicSymlink)
        } else if value == 4 {
            Some(Self::BasicBlockDevice)
        } else if value == 5 {
            Some(Self::BasicCharDevice)
        } else if value == 6 {
            Some(Self::BasicPipe)
        } else if value == 7 {
            Some(Self::BasicSocked)
        } else if value == 8 {
            Some(Self::ExtendedDirectory)
        } else if value == 9 {
            Some(Self::ExtendedFile)
        } else if value == 10 {
            Some(Self::ExtendedSymlink)
        } else if value == 11 {
            Some(Self::ExtendedBlockDevice)
        } else if value == 12 {
            Some(Self::ExtendedPipe)
        } else if value == 13 {
            Some(Self::ExtendedSocked)
        } else {
            None
        }
    }

    /// Decodes an on-disk tag; `None` for a value the format does not define.
    pub fn from_tag(value: u16) -> (r: Option<Self>)
        ensures
            r == Self::of_tag(value),
    {
        match value {
            1 => Some(Self::BasicDirectory),
            2 => Some(Self::BasicFile),
            3 => Some(Self::BasicSymlink),
            4 => Some(Self::BasicBlockDevice),
            5 => Some(Self::BasicCharDevice),
            6 => Some(Self::BasicPipe),
            7 => Some(Self::BasicSocked),
            8 => Some(Self::ExtendedDirectory),
            9 => Some(Self::ExtendedFile),
            10 => Some(Self::ExtendedSymlink),
            11 => Some(Self::ExtendedBlockDevice),
            12 => Some(Self::ExtendedPipe),
            13 => Some(Self::ExtendedSocked),
            _ => None,
        }
    }

    /// Length of the record of this kind, for the kinds that are decoded.
    pub open spec fn spec_record_size(self) -> Option<usize> {
        match self {
            Self::BasicDirectory => Some(BASIC_DIRECTORY_SIZE),
            Self::ExtendedDirectory => Some(EXTENDED_DIRECTORY_SIZE),
            Self::BasicFile => Some(BASIC_FILE_SIZE),
            _ => None,
        }
    }

    /// Length of the record of this kind; `None` for a kind that is not
    /// decoded.
    pub fn record_size(self) -> (r: Option<usize>)
        ensures
            r == self.spec_record_size(),
    {
        match self {
            Self::BasicDirectory => Some(BASIC_DIRECTORY_SIZE),
            Self::ExtendedDirectory => Some(EXTENDED_DIRECTORY_SIZE),
            Self::BasicFile => Some(BASIC_FILE_SIZE),
            _ => None,
        }
    }
}

/// The header common to all inode records. Bytes 2 to 7, which hold
/// permissions and owner, are not decoded.
#[derive(Clone, Copy, Debug, PartialEq, Eq, Structural)]
pub struct InodeHeader {
    pub file_type: InodeFileType,
    pub mtime: u32,
    pub inode_num: u32,
}

impl InodeHeader {
    /// The header that `bytes` begins with: the tag at offset 0, the
    /// modification time at 8 and the inode number at 12. `None` where
    /// `bytes` is shorter than a header or the tag is unknown.
    pub open spec fn parse(bytes: Seq<u8>) -> Option<Self> {
        if bytes.len() < 16 {
            None
        } else {
            match InodeFileType::of_tag(le_u16(bytes, 0)) {
                None => None,
                Some(file_type) => Some(
                    InodeHeader {
                        file_type,
                        mtime: le_u32(bytes, 8),
                        inode_num: le_u32(bytes, 12),
                    },
                ),
            }
        }
    }

    /// Decodes a record header; `Corrupt` where [`Self::parse`] finds none.
    pub fn from_bytes(bytes: &[u8]) -> (r: Result<Self, VfsError>)
        ensures
            match r {
                Ok(h) => Self::parse(bytes@) == Some(h),
                Err(e) => e == VfsError::Corrupt && Self::parse(bytes@) is None,
            },
    {
        if bytes.len() < INODE_HEADER_SIZE {
            return Err(VfsError::Corrupt);
        }
        let file_type = match InodeFileType::from_tag(read_le_u16(bytes, 0)) {
            Some(t) => t,
            None => {
                return Err(VfsError::Corrupt);
            },
        };
        let mtime = read_le_u32(bytes, 8);
        let inode_num = read_le_u32(bytes, 12);

        Ok(Self { file_type, mtime, inode_num })
    }
}

/// A directory small enough for the basic record.
#[derive(Clone, Copy, Debug, PartialEq, Eq, Structural)]
pub struct BasicDirectoryInode {
    pub header: InodeHeader,
    pub block_index: u32,
    pub link_count: u32,
    pub file_size: u16,
    pub block_offset: u16,
    pub parent_inode: u32,
}

impl BasicDirectoryInode {
    /// The record that `bytes` begins with; `None` where `bytes` is shorter
    /// than the record or its header does not parse.
    pub open spec fn parse(bytes: Seq<u8>) -> Option<Self> {
        if bytes.len() < 32 {
            None
        } else {
            match InodeHeader::parse(bytes) {
                None => None,
                Some(header) => Some(
                    BasicDirectoryInode {
                        header,
                        block_index: le_u32(bytes, 16),
                        link_count: le_u32(bytes, 20),
                        file_size: le_u16(bytes, 24),
                        block_offset: le_u16(bytes, 26),
                        parent_inode: le_u32(bytes, 28),
                    },
                ),
            }
        }
    }

    /// Decodes a basic directory record; `Corrupt` where [`Self::parse`]
    /// finds none.
    pub fn from_bytes(bytes: &[u8]) -> (r: Result<Self, VfsError>)
        ensures
            match r {
                Ok(i) => Self::parse(bytes@) == Some(i),
                Err(e) => e == VfsError::Corrupt && Self::parse(bytes@) is None,
            },
    {
        if bytes.len() < BASIC_DIRECTORY_SIZE {
            return Err(VfsError::Corrupt);
        }
        let header = InodeHeader::from_bytes(bytes)?;
        let block_index = read_le_u32(bytes, 16);
        let link_count = read_le_u32(bytes, 20);
        let file_size = read_le_u16(bytes, 24);
        let block_offset = read_le_u16(bytes, 26);
        let parent_inode = read_le_u32(bytes, 28);

        Ok(Self { header, block_index, link_count, file_size, block_offset, parent_inode })
    }
}

/// A directory with the extended record.
#[derive(Clone, Copy, Debug, PartialEq, Eq, Structural)]
pub struct ExtendedDirectoryInode {
    pub header: InodeHeader,
    pub link_count: u32,
    pub file_size: u32,
    pub block_index: u32,
    pub parent_inode: u32,
    pub index_count: u16,
    pub block_offset: u16,
    pub xattr_index: u32,
}

impl ExtendedDirectoryInode {
    /// The record that `bytes` begins with; `None` where `bytes` is shorter
    /// than the record or its header does not parse.
    pub open spec fn parse(bytes: Seq<u8>) -> Option<Self> {
        if bytes.len() < 40 {
            None
        } else {
            match InodeHeader::parse(bytes) {
                None => None,
                Some(header) => Some(
                    ExtendedDirectoryInode {
                        header,
                        link_count: le_u32(bytes, 16),
                        file_size: le_u32(bytes, 20),
                        block_index: le_u32(bytes, 24),
                        parent_inode: le_u32(bytes, 28),
                        index_count: le_u16(bytes, 32),
                        block_offset: le_u16(bytes, 34),
                        xattr_index: le_u32(bytes, 36),
                    },
                ),
            }
        }
    }

    /// Decodes an extended directory record; `Corrupt` where [`Self::parse`]
    /// finds none.
    pub fn from_bytes(bytes: &[u8]) -> (r: Result<Self, VfsError>)
        ensures
            match r {
                Ok(i) => Self::parse(bytes@) == Some(i),
                Err(e) => e == VfsError::Corrupt && Self::parse(bytes@) is None,
            },
    {
        if bytes.len() < EXTENDED_DIRECTORY_SIZE {
            return Err(VfsError::Corrupt);
        }
        let header = InodeHeader::from_bytes(bytes)?;
        let link_count = read_le_u32(bytes, 16);
        let file_size = read_le_u32(bytes, 20);
        let block_index = read_le_u32(bytes, 24);
        let parent_inode = read_le_u32(bytes, 28);
        let index_count = read_le_u16(bytes, 32);
        let block_offset = read_le_u16(bytes, 34);
        let xattr_index = read_le_u32(bytes, 36);

        Ok(
            Self {
                header,
                link_count,
                file_size,
                block_index,
                parent_inode,
                index_count,
                block_offset,
                xattr_index,
            },
        )
    }
}

/// A regular file with the basic record.
///
/// A file's bytes lie either in the data table or, where `frag_idx` is not
/// [`NO_FRAGMENT`], packed into a fragment block together with the tails of
/// other files.
#[derive(Clone, Copy, Debug, PartialEq, Eq, Structural)]
pub struct BasicFileInode {
    pub header: InodeHeader,
    pub block_start: u32,
    pub frag_idx: u32,
    pub block_offset: u32,
    pub file_size: u32,
}

impl BasicFileInode {
    /// The record that `bytes` begins with; `None` where `bytes` is shorter
    /// than the record or its header does not parse.
    pub open spec fn parse(bytes: Seq<u8>) -> Option<Self> {
        if bytes.len() < 32 {
            None
        } else {
            match InodeHeader::parse(bytes) {
                None => None,
                Some(header) => Some(
                    BasicFileInode {
                        header,
                        block_start: le_u32(bytes, 16),
                        frag_idx: le_u32(bytes, 20),
                        block_offset: le_u32(bytes, 24),
                        file_size: le_u32(bytes, 28),
                    },
                ),
            }
        }
    }

    /// Decodes a basic file record; `Corrupt` where [`Self::parse`] finds
    /// none.
    pub fn from_bytes(bytes: &[u8]) -> (r: Result<Self, VfsError>)
        ensures
            match r {
                Ok(i) => Self::parse(bytes@) == Some(i),
                Err(e) => e == VfsError::Corrupt && Self::parse(bytes@) is None,
            },
    {
        if bytes.len() < BASIC_FILE_SIZE {
            return Err(VfsError::Corrupt);
        }
        let header = InodeHeader::from_bytes(bytes)?;
        let block_start = read_le_u32(bytes, 16);
        let frag_idx = read_le_u32(bytes, 20);
        let block_offset = read_le_u32(bytes, 24);
        let file_size = read_le_u32(bytes, 28);

        Ok(Self { header, block_start, frag_idx, block_offset, file_size })
    }
}

/// A decoded inode.
#[derive(Clone, Copy, Debug, PartialEq, Eq, Structural)]
pub enum Inode {
    BasicFile(BasicFileInode),
    BasicDirectory(BasicDirectoryInode),
    ExtendedDirectory(ExtendedDirectoryInode),
}

impl Inode {
    /// The inode that the record `bytes` holds.
    ///
    /// `Corrupt` where the tag is missing or unknown or the record is cut
    /// short; `Unsupported` where the tag names a kind that is not decoded.
    pub open spec fn parse(bytes: Seq<u8>) -> Result<Inode, VfsError> {
        if bytes.len() < 2 {
            Err(VfsError::Corrupt)
        } else {
            match InodeFileType::of_tag(le_u16(bytes, 0)) {
                None => Err(VfsError::Corrupt),
                Some(InodeFileType::BasicDirectory) => match BasicDirectoryInode::parse(bytes) {
                    Some(dir) => Ok(Inode::BasicDirectory(dir)),
                    None => Err(VfsError::Corrupt),
                },
                Some(InodeFileType::ExtendedDirectory) => match ExtendedDirectoryInode::parse(
                    bytes,
                ) {
                    Some(dir) => Ok(Inode::ExtendedDirectory(dir)),
                    None => Err(VfsError::Corrupt),
                },
                Some(InodeFileType::BasicFile) => match BasicFileInode::parse(bytes) {
                    Some(file) => Ok(Inode::BasicFile(file)),
                    None => Err(VfsError::Corrupt),
                },
                Some(_) => Err(VfsError::Unsupported),
            }
        }
    }

    /// Decodes the inode that the record `value` holds.
    pub fn from_bytes(value: &[u8]) -> (r: Result<Inode, VfsError>)
        ensures
            r == Self::parse(value@),
    {
        if value.len() < 2 {
            return Err(VfsError::Corrupt);
        }
        let file_type = match InodeFileType::from_tag(read_le_u16(value, 0)) {
            Some(t) => t,
            None => {
                return Err(VfsError::Corrupt);
            },
        };
        match file_type {
            InodeFileType::BasicDirectory => {
                match BasicDirectoryInode::from_bytes(value) {
                    Ok(dir) => Ok(Inode::BasicDirectory(dir)),
                    Err(_) => Err(VfsError::Corrupt),
                }
            },
            InodeFileType::ExtendedDirectory => {
                match ExtendedDirectoryInode::from_bytes(value) {
                    Ok(dir) => Ok(Inode::ExtendedDirectory(dir)),
                    Err(_) => Err(VfsError::Corrupt),
                }
            },
            InodeFileType::BasicFile => match BasicFileInode::from_bytes(value) {
                Ok(file) => Ok(Inode::BasicFile(file)),
                Err(_) => Err(VfsError::Corrupt),
            },
            _ => Err(VfsError::Unsupported),
        }
    }

    /// Whether the inode is a directory.
    pub open spec fn spec_is_directory(self) -> bool {
        self is BasicDirectory || self is ExtendedDirectory
    }

    /// Whether the inode is a directory.
    pub fn is_directory(&self) -> (r: bool)
        ensures
            r == self.spec_is_directory(),
    {
        match self {
            Inode::BasicDirectory(_) | Inode::ExtendedDirectory(_) => true,
            Inode::BasicFile(_) => false,
        }
    }
}

} // verus!
