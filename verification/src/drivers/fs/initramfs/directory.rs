//! Directory listings of the archive format.
//!
//! A listing is one or more runs. A run is a 12-byte header and the entries
//! it announces; an entry is an 8-byte head and a name.

use crate::drivers::fs::initramfs::inode::InodeFileType;
use crate::drivers::fs::vfs::VfsError;
use crate::libs::endian::{le_u16, le_u32, read_le_u16, read_le_u32};
use vstd::prelude::*;
use vstd::slice::slice_subrange;

verus! {

/// Length of the header that opens a run of entries.
pub const DIRECTORY_HEADER_SIZE: usize = 12;

/// Length of an entry without its name.
pub const DIRECTORY_ENTRY_HEAD: usize = 8;

/// The header of a run of directory entries.
#[derive(Clone, Copy, Debug, PartialEq, Eq, Structural)]
pub struct DirectoryTableHeader {
    /// Number of entries in the run. The disk holds one less.
    pub entry_count: u32,
    /// Where, in the inode table, the chunk with the entries' inodes starts.
    pub start: u32,
    pub inode_num: u32,
}

impl DirectoryTableHeader {
    /// The header that `bytes` begins with: the entry count less one at
    /// offset 0, the inode chunk's start at 4, an inode number at 8. `None`
    /// where `bytes` is shorter than a header or the stored count has no
    /// successor.
    pub open spec fn parse(bytes: Seq<u8>) -> Option<Self> {
        if bytes.len() < 12 || le_u32(bytes, 0) == 0xFFFF_FFFF {
            None
        } else {
            Some(
                DirectoryTableHeader {
                    entry_count: (le_u32(bytes, 0) + 1) as u32,
                    start: le_u32(bytes, 4),
                    inode_num: le_u32(bytes, 8),
                },
            )
        }
    }

    /// Decodes a run header; `Corrupt` where [`Self::parse`] finds none.
    pub fn from_bytes(value: &[u8]) -> (r: Result<Self, VfsError>)
        ensures
            match r {
                Ok(h) => Self::parse(value@) == Some(h),
                Err(e) => e == VfsError::Corrupt && Self::parse(value@) is None,
            },
    {
        if value.len() < DIRECTORY_HEADER_SIZE {
            return Err(VfsError::Corrupt);
        }
        let stored = read_le_u32(value, 0);
        if stored == 0xFFFF_FFFF {
            return Err(VfsError::Corrupt);
        }
        let entry_count = stored + 1;
        let start = read_le_u32(value, 4);
        let inode_num = read_le_u32(value, 8);

        Ok(Self { entry_count, start, inode_num })
    }
}

/// The two's-complement reading of a 16-bit word.
pub open spec fn signed16(v: u16) -> i16 {
    if v < 0x8000 {
        v as i16
    } else {
        (v - 0x1_0000) as i16
    }
}

/// One directory entry.
#[derive(Debug)]
pub struct DirectoryTableEntry {
    /// Where in its chunk of the inode table the entry's inode lies.
    pub offset: u16,
    pub inode_offset: i16,
    pub inode_type: InodeFileType,
    /// Length of the name less one.
    pub name_size: u16,
    pub name: Vec<u8>,
}

/// What a directory entry holds.
pub struct DirectoryEntryView {
    pub offset: u16,
    pub inode_offset: i16,
    pub inode_type: InodeFileType,
    pub name_size: u16,
    pub name: Seq<u8>,
}

impl View for DirectoryTableEntry {
    type V = DirectoryEntryView;

    open spec fn view(&self) -> DirectoryEntryView {
        DirectoryEntryView {
            offset: self.offset,
            inode_offset: self.inode_offset,
            inode_type: self.inode_type,
            name_size: self.name_size,
            name: self.name@,
        }
    }
}

impl DirectoryTableEntry {
    /// The entry that `bytes` begins with: inode offset at 0, a signed inode
    /// number difference at 2, the type tag at 4, the name's length less one
    /// at 6, and then the name. `None` where the tag is unknown or `bytes`
    /// ends before the name does.
    pub open spec fn parse(bytes: Seq<u8>) -> Option<DirectoryEntryView> {
        if bytes.len() < 8 || bytes.len() < 8 + le_u16(bytes, 6) + 1 {
            None
        } else {
            match InodeFileType::of_tag(le_u16(bytes, 4)) {
                None => None,
                Some(inode_type) => Some(
                    DirectoryEntryView {
                        offset: le_u16(bytes, 0),
                        inode_offset: signed16(le_u16(bytes, 2)),
                        inode_type,
                        name_size: le_u16(bytes, 6),
                        name: bytes.subrange(8, 8 + le_u16(bytes, 6) + 1),
                    },
                ),
            }
        }
    }

    /// Decodes a directory entry; `Corrupt` where [`Self::parse`] finds none.
    pub fn from_bytes(bytes: &[u8]) -> (r: Result<Self, VfsError>)
        ensures
            match r {
                Ok(e) => Self::parse(bytes@) == Some(e@),
                Err(e) => e == VfsError::Corrupt && Self::parse(bytes@) is None,
            },
    {
        if bytes.len() < DIRECTORY_ENTRY_HEAD {
            return Err(VfsError::Corrupt);
        }
        let offset = read_le_u16(bytes, 0);
        let raw_inode_offset = read_le_u16(bytes, 2);
        let inode_offset: i16 = if raw_inode_offset < 0x8000 {
            raw_inode_offset as i16
        } else {
            (raw_inode_offset as i32 - 0x1_0000) as i16
        };
        let inode_type = match InodeFileType::from_tag(read_le_u16(bytes, 4)) {
            Some(t) => t,
            None => {
                return Err(VfsError::Corrupt);
            },
        };
        let name_size = read_le_u16(bytes, 6);
        let name_end: usize = DIRECTORY_ENTRY_HEAD + name_size as usize + 1;
        if bytes.len() < name_end {
            return Err(VfsError::Corrupt);
        }
        let mut name: Vec<u8> = Vec::new();
        name.extend_from_slice(slice_subrange(bytes, DIRECTORY_ENTRY_HEAD, name_end));
        assert(name@ =~= bytes@.subrange(8, 8 + name_size + 1));
        assert(inode_offset == signed16(raw_inode_offset));

        Ok(Self { offset, inode_offset, inode_type, name_size, name })
    }
}

} // verus!
