//! A FAT file system on a block device, read-only.
//!
//! The first sector holds the parameter block, from which the variant of
//! the format follows. The file allocation table chains the clusters of a
//! file; a directory is a cluster of entries of 32 bytes, in which long
//! names stand in entries of their own before the entry that they name.

use crate::drivers::fs::devfs::DeviceOperations;
use crate::drivers::fs::vfs::{
    view_bytes, FileId, FsOp, FsOps, StatFs, UserCred, VAttr, VNode, VNodeOp, VNodeOperations,
    VNodeType, VfsError, UIO,
};
use crate::libs::bytes::{bytes_eq, contains, contains_bytes};
use crate::libs::endian::{le_u16, le_u32, read_le_u16, read_le_u32};
use crate::libs::text::{
    str_from_utf8, string_from_utf16, to_uppercase, trim_end, trimmed_end, uppercase, utf16_text,
};
use vstd::prelude::*;
use vstd::slice::slice_subrange;
use vstd::utf8::valid_utf8;

verus! {

/// From this value on, an entry of the table ends a chain of clusters.
pub const EOC_12: u32 = 0x0FF8;

/// From this value on, an entry of the table ends a chain of clusters.
pub const EOC_16: u32 = 0xFFF8;

/// From this value on, an entry of the table ends a chain of clusters.
pub const EOC_32: u32 = 0x0FFF_FFF8;

/// The parameter block at the start of the first sector.
#[derive(Clone, Copy, Debug)]
pub struct BIOSParameterBlock {
    pub oem_identifier: [u8; 8],
    pub bytes_per_sector: u16,
    pub sectors_per_cluster: u8,
    pub reserved_sectors: u16,
    pub fat_count: u8,
    pub root_directory_count: u16,
    pub total_sectors: u16,
    pub media_descriptor_type: u8,
    pub sectors_per_fat: u16,
    pub sectors_per_track: u16,
    pub head_count: u16,
    pub hidden_sectors: u32,
    pub large_sector_count: u32,
}

/// What follows the parameter block on a FAT12 or FAT16 volume.
#[derive(Clone, Copy, Debug)]
pub struct Fat16EBPB {
    pub drive_number: u8,
    pub signature: u8,
    pub volume_id: u32,
    pub volume_label: [u8; 11],
    pub system_identifier_string: [u8; 8],
}

/// What follows the parameter block on a FAT32 volume.
#[derive(Clone, Copy, Debug)]
pub struct Fat32EBPB {
    pub sectors_per_fat_ext: u32,
    pub flags: u16,
    pub fat_version: u16,
    pub root_dir_cluster: u32,
    pub fsinfo_sector: u16,
    pub backup_bootsector: u16,
    pub drive_number: u8,
    pub signature: u8,
    pub volume_id: u32,
    pub volume_label: [u8; 11],
    pub system_identifier_string: [u8; 8],
}

/// The eight bytes of `bytes` from `at` on.
fn take8(bytes: &[u8], at: usize) -> (r: [u8; 8])
    requires
        at + 8 <= bytes@.len(),
    ensures
        r@ == bytes@.subrange(at as int, at + 8),
{
    let r = [
        bytes[at],
        bytes[at + 1],
        bytes[at + 2],
        bytes[at + 3],
        bytes[at + 4],
        bytes[at + 5],
        bytes[at + 6],
        bytes[at + 7],
    ];
    assert(r@ =~= bytes@.subrange(at as int, at + 8));
    r
}

/// The eleven bytes of `bytes` from `at` on.
fn take11(bytes: &[u8], at: usize) -> (r: [u8; 11])
    requires
        at + 11 <= bytes@.len(),
    ensures
        r@ == bytes@.subrange(at as int, at + 11),
{
    let r = [
        bytes[at],
        bytes[at + 1],
        bytes[at + 2],
        bytes[at + 3],
        bytes[at + 4],
        bytes[at + 5],
        bytes[at + 6],
        bytes[at + 7],
        bytes[at + 8],
        bytes[at + 9],
        bytes[at + 10],
    ];
    assert(r@ =~= bytes@.subrange(at as int, at + 11));
    r
}

impl BIOSParameterBlock {
    /// Whether the block is what the first sector `sector` holds: after
    /// three bytes of code, the name of what formatted the volume in eight
    /// bytes, and then its numbers, each in little-endian order.
    pub open spec fn decodes(&self, sector: Seq<u8>) -> bool {
        &&& self.oem_identifier@ == sector.subrange(3, 11)
        &&& self.bytes_per_sector == le_u16(sector, 11)
        &&& self.sectors_per_cluster == sector[13]
        &&& self.reserved_sectors == le_u16(sector, 14)
        &&& self.fat_count == sector[16]
        &&& self.root_directory_count == le_u16(sector, 17)
        &&& self.total_sectors == le_u16(sector, 19)
        &&& self.media_descriptor_type == sector[21]
        &&& self.sectors_per_fat == le_u16(sector, 22)
        &&& self.sectors_per_track == le_u16(sector, 24)
        &&& self.head_count == le_u16(sector, 26)
        &&& self.hidden_sectors == le_u32(sector, 28)
        &&& self.large_sector_count == le_u32(sector, 32)
    }

    /// Reads the parameter block of the first sector; see
    /// [`Self::decodes`].
    pub fn from_bytes(sector: &[u8]) -> (r: Self)
        requires
            sector@.len() >= 90,
        ensures
            r.decodes(sector@),
    {
        BIOSParameterBlock {
            oem_identifier: take8(sector, 3),
            bytes_per_sector: read_le_u16(sector, 11),
            sectors_per_cluster: sector[13],
            reserved_sectors: read_le_u16(sector, 14),
            fat_count: sector[16],
            root_directory_count: read_le_u16(sector, 17),
            total_sectors: read_le_u16(sector, 19),
            media_descriptor_type: sector[21],
            sectors_per_fat: read_le_u16(sector, 22),
            sectors_per_track: read_le_u16(sector, 24),
            head_count: read_le_u16(sector, 26),
            hidden_sectors: read_le_u32(sector, 28),
            large_sector_count: read_le_u32(sector, 32),
        }
    }

    /// How many sectors the root directory of a FAT12 or FAT16 volume
    /// takes: its entries of 32 bytes, in whole sectors.
    pub open spec fn spec_root_dir_sectors(&self) -> int {
        (self.root_directory_count * 32 + (self.bytes_per_sector - 1)) / (
        self.bytes_per_sector as int)
    }

    /// How many sectors the root directory of a FAT12 or FAT16 volume
    /// takes.
    pub fn root_dir_sectors(&self) -> (r: u32)
        requires
            self.bytes_per_sector > 0,
        ensures
            r == self.spec_root_dir_sectors(),
    {
        (self.root_directory_count as u32 * 32 + (self.bytes_per_sector as u32 - 1))
            / self.bytes_per_sector as u32
    }
}

impl Fat16EBPB {
    /// Whether the block is what the first sector `sector` of a FAT12 or
    /// FAT16 volume holds from byte 36 on.
    pub open spec fn decodes(&self, sector: Seq<u8>) -> bool {
        &&& self.drive_number == sector[36]
        &&& self.signature == sector[38]
        &&& self.volume_id == le_u32(sector, 39)
        &&& self.volume_label@ == sector.subrange(43, 54)
        &&& self.system_identifier_string@ == sector.subrange(54, 62)
    }

    /// Reads the block from the first sector; see [`Self::decodes`].
    pub fn from_bytes(sector: &[u8]) -> (r: Self)
        requires
            sector@.len() >= 90,
        ensures
            r.decodes(sector@),
    {
        Fat16EBPB {
            drive_number: sector[36],
            signature: sector[38],
            volume_id: read_le_u32(sector, 39),
            volume_label: take11(sector, 43),
            system_identifier_string: take8(sector, 54),
        }
    }
}

impl Fat32EBPB {
    /// Whether the block is what the first sector `sector` of a FAT32
    /// volume holds from byte 36 on.
    pub open spec fn decodes(&self, sector: Seq<u8>) -> bool {
        &&& self.sectors_per_fat_ext == le_u32(sector, 36)
        &&& self.flags == le_u16(sector, 40)
        &&& self.fat_version == le_u16(sector, 42)
        &&& self.root_dir_cluster == le_u32(sector, 44)
        &&& self.fsinfo_sector == le_u16(sector, 48)
        &&& self.backup_bootsector == le_u16(sector, 50)
        &&& self.drive_number == sector[64]
        &&& self.signature == sector[66]
        &&& self.volume_id == le_u32(sector, 67)
        &&& self.volume_label@ == sector.subrange(71, 82)
        &&& self.system_identifier_string@ == sector.subrange(82, 90)
    }

    /// Reads the block from the first sector; see [`Self::decodes`].
    pub fn from_bytes(sector: &[u8]) -> (r: Self)
        requires
            sector@.len() >= 90,
        ensures
            r.decodes(sector@),
    {
        Fat32EBPB {
            sectors_per_fat_ext: read_le_u32(sector, 36),
            flags: read_le_u16(sector, 40),
            fat_version: read_le_u16(sector, 42),
            root_dir_cluster: read_le_u32(sector, 44),
            fsinfo_sector: read_le_u16(sector, 48),
            backup_bootsector: read_le_u16(sector, 50),
            drive_number: sector[64],
            signature: sector[66],
            volume_id: read_le_u32(sector, 67),
            volume_label: take11(sector, 71),
            system_identifier_string: take8(sector, 82),
        }
    }
}

/// The sector of a FAT32 volume that says where free clusters are.
#[derive(Clone, Copy, Debug, PartialEq, Eq, Structural)]
pub struct FSInfo {
    pub lead_signature: u32,
    pub mid_signature: u32,
    pub last_known_free_cluster: u32,
    pub look_for_free_clusters: u32,
    pub trail_signature: u32,
}

impl FSInfo {
    /// What the sector `bytes` holds.
    pub open spec fn parse(bytes: Seq<u8>) -> Self {
        FSInfo {
            lead_signature: le_u32(bytes, 0),
            mid_signature: le_u32(bytes, 484),
            last_known_free_cluster: le_u32(bytes, 488),
            look_for_free_clusters: le_u32(bytes, 492),
            trail_signature: le_u32(bytes, 508),
        }
    }

    /// Reads the sector; see [`Self::parse`].
    pub fn from_bytes(bytes: &[u8]) -> (r: Self)
        requires
            bytes@.len() >= 512,
        ensures
            r == Self::parse(bytes@),
    {
        FSInfo {
            lead_signature: read_le_u32(bytes, 0),
            mid_signature: read_le_u32(bytes, 484),
            last_known_free_cluster: read_le_u32(bytes, 488),
            look_for_free_clusters: read_le_u32(bytes, 492),
            trail_signature: read_le_u32(bytes, 508),
        }
    }
}

/// The variants of the format. They differ in the width of an entry of the
/// table, and so in the number of clusters that a volume can have.
#[derive(Clone, Copy, Debug, PartialEq, Eq, Structural)]
pub enum FatKind {
    Fat12,
    Fat16,
    Fat32,
}

impl FatKind {
    /// The variant of a volume with `total_clusters` clusters.
    pub open spec fn of_clusters(total_clusters: int) -> FatKind {
        if total_clusters < 4085 {
            FatKind::Fat12
        } else if total_clusters < 65525 {
            FatKind::Fat16
        } else {
            FatKind::Fat32
        }
    }

    /// The name of the variant, which a volume carries in its first
    /// sector.
    pub open spec fn name(self) -> Seq<u8> {
        match self {
            FatKind::Fat12 => seq![0x46u8, 0x41, 0x54, 0x31, 0x32],
            FatKind::Fat16 => seq![0x46u8, 0x41, 0x54, 0x31, 0x36],
            FatKind::Fat32 => seq![0x46u8, 0x41, 0x54, 0x33, 0x32],
        }
    }

    /// Where in the first sector the name of the variant stands.
    pub open spec fn name_at(self) -> int {
        match self {
            FatKind::Fat32 => 82,
            _ => 54,
        }
    }

    /// How many bytes an entry of the table takes.
    pub open spec fn entry_size(self) -> int {
        match self {
            FatKind::Fat32 => 4,
            _ => 2,
        }
    }

    /// The bits of an entry of the table that count.
    pub open spec fn entry_mask(self) -> u32 {
        match self {
            FatKind::Fat12 => 0x0FFF,
            FatKind::Fat16 => 0xFFFF,
            FatKind::Fat32 => 0x0FFF_FFFF,
        }
    }

    /// From this value on, an entry of the table ends a chain.
    pub open spec fn end_of_chain(self) -> u32 {
        match self {
            FatKind::Fat12 => EOC_12,
            FatKind::Fat16 => EOC_16,
            FatKind::Fat32 => EOC_32,
        }
    }
}

/// The variant of a volume, with the block that belongs to it.
#[derive(Clone, Copy, Debug)]
pub enum FatType {
    Fat12(Fat16EBPB),
    Fat16(Fat16EBPB),
    Fat32(Fat32EBPB),
}

impl FatType {
    /// The variant alone.
    pub open spec fn spec_kind(&self) -> FatKind {
        match self {
            FatType::Fat12(_) => FatKind::Fat12,
            FatType::Fat16(_) => FatKind::Fat16,
            FatType::Fat32(_) => FatKind::Fat32,
        }
    }

    /// The variant alone.
    pub fn kind(&self) -> (r: FatKind)
        ensures
            r == self.spec_kind(),
    {
        match self {
            FatType::Fat12(_) => FatKind::Fat12,
            FatType::Fat16(_) => FatKind::Fat16,
            FatType::Fat32(_) => FatKind::Fat32,
        }
    }

    /// Whether the block of the variant is what the first sector `sector`
    /// holds.
    pub open spec fn decodes(&self, sector: Seq<u8>) -> bool {
        match self {
            FatType::Fat12(ebpb) => ebpb.decodes(sector),
            FatType::Fat16(ebpb) => ebpb.decodes(sector),
            FatType::Fat32(ebpb) => ebpb.decodes(sector),
        }
    }
}

/// The numbers that follow from the first sector `sector` of a volume.
pub struct Layout {
    /// How many sectors the volume has.
    pub total_sectors: int,
    /// How many sectors one copy of the table takes.
    pub fat_size: int,
    /// How many sectors the root directory of a FAT12 or FAT16 volume
    /// takes.
    pub root_dir_sectors: int,
    /// The first sector after the tables and the root directory.
    pub first_data_sector: int,
    /// How many clusters the volume has.
    pub total_clusters: int,
}

/// The layout of the volume whose first sector is `sector`. A volume whose
/// 16-bit sector count is zero has its sector count, and the size of its
/// table, in 32 bits further on.
pub open spec fn layout(sector: Seq<u8>) -> Layout {
    let small = le_u16(sector, 19) != 0;
    let total_sectors: int = if small {
        le_u16(sector, 19) as int
    } else {
        le_u32(sector, 32) as int
    };
    let fat_size: int = if small {
        le_u16(sector, 22) as int
    } else {
        le_u32(sector, 36) as int
    };
    let bytes_per_sector = le_u16(sector, 11) as int;
    let root_dir_sectors = (le_u16(sector, 17) * 32 + (bytes_per_sector - 1)) / bytes_per_sector;
    let first_data_sector = le_u16(sector, 14) + sector[16] * fat_size + root_dir_sectors;
    Layout {
        total_sectors,
        fat_size,
        root_dir_sectors,
        first_data_sector,
        total_clusters: (total_sectors - first_data_sector) / (sector[13] as int),
    }
}

/// The variant of the volume whose first sector is `sector`, going by the
/// number of its clusters.
///
/// `Corrupt` where the sector is cut short, a sector or a cluster has no
/// size, the tables and the root directory take more sectors than the
/// volume has, or the sector does not carry the name of the variant in
/// eight bytes of valid UTF-8.
pub open spec fn volume_kind(sector: Seq<u8>) -> Result<FatKind, VfsError> {
    if sector.len() < 512 || le_u16(sector, 11) == 0 || sector[13] == 0 || layout(
        sector,
    ).first_data_sector > layout(sector).total_sectors {
        Err(VfsError::Corrupt)
    } else {
        let kind = FatKind::of_clusters(layout(sector).total_clusters);
        let identifier = sector.subrange(kind.name_at(), kind.name_at() + 8);
        if valid_utf8(identifier) && contains(identifier, kind.name()) {
            Ok(kind)
        } else {
            Err(VfsError::Corrupt)
        }
    }
}

/// An entry of a directory, without its name.
#[derive(Clone, Copy, Debug, PartialEq, Eq, Structural)]
pub struct FileEntry {
    pub attributes: u8,
    pub creation_tenths: u8,
    pub creation_time: u16,
    pub creation_date: u16,
    pub accessed_date: u16,
    pub high_first_cluster_number: u16,
    pub modified_time: u16,
    pub modified_date: u16,
    pub low_first_cluster_number: u16,
    pub file_size: u32,
}

/// The attribute of an entry that holds a part of a long name.
pub const ATTR_LONG_FILE_NAME: u8 = 0x0F;

/// The attribute of an entry that names a directory.
pub const ATTR_DIRECTORY: u8 = 0x10;

impl FileEntry {
    /// What the entry of 32 bytes at `at` in `data` holds after its name.
    pub open spec fn parse(data: Seq<u8>, at: int) -> Self {
        FileEntry {
            attributes: data[at + 11],
            creation_tenths: data[at + 13],
            creation_time: le_u16(data, at + 14),
            creation_date: le_u16(data, at + 16),
            accessed_date: le_u16(data, at + 18),
            high_first_cluster_number: le_u16(data, at + 20),
            modified_time: le_u16(data, at + 22),
            modified_date: le_u16(data, at + 24),
            low_first_cluster_number: le_u16(data, at + 26),
            file_size: le_u32(data, at + 28),
        }
    }

    /// Reads the entry at `at` in `data`; see [`Self::parse`].
    pub fn from_bytes(data: &[u8], at: usize) -> (r: Self)
        requires
            at + 32 <= data@.len(),
        ensures
            r == Self::parse(data@, at as int),
    {
        let len = data.len();
        assert(at + 32 <= len);
        FileEntry {
            attributes: data[at + 11],
            creation_tenths: data[at + 13],
            creation_time: read_le_u16(data, at + 14),
            creation_date: read_le_u16(data, at + 16),
            accessed_date: read_le_u16(data, at + 18),
            high_first_cluster_number: read_le_u16(data, at + 20),
            modified_time: read_le_u16(data, at + 22),
            modified_date: read_le_u16(data, at + 24),
            low_first_cluster_number: read_le_u16(data, at + 26),
            file_size: read_le_u32(data, at + 28),
        }
    }

    /// The first cluster of the file: the two halves of its number put
    /// together.
    pub open spec fn spec_cluster(&self) -> u32 {
        (self.low_first_cluster_number + self.high_first_cluster_number * 0x1_0000) as u32
    }

    /// The first cluster of the file.
    pub fn cluster(&self) -> (r: u32)
        ensures
            r == self.spec_cluster(),
    {
        self.low_first_cluster_number as u32 + self.high_first_cluster_number as u32 * 0x1_0000
    }

    /// Whether the entry names a directory.
    pub fn is_directory(&self) -> (r: bool)
        ensures
            r == (self.attributes == ATTR_DIRECTORY),
    {
        self.attributes == ATTR_DIRECTORY
    }
}

/// A FAT volume on the device `P`.
pub struct FatFs<P> {
    pub partition: P,
    /// Where free clusters are, on a FAT32 volume.
    pub fs_info: Option<FSInfo>,
    /// The table, where it is kept in memory while the volume is mounted.
    pub fat: Option<Vec<u32>>,
    pub bpb: BIOSParameterBlock,
    /// The sector where the table begins.
    pub fat_start: u64,
    pub fat_type: FatType,
    /// The size of a cluster in bytes.
    pub cluster_size: usize,
    pub sectors_per_fat: usize,
    /// Whether the table is to be kept in memory while the volume is
    /// mounted.
    pub fat_in_mem: bool,
}

/// What opening the volume on `partition` finds: the variant of the
/// volume, or the error that stops it. The first sector is read and
/// examined as [`volume_kind`] says; on a FAT32 volume, the sector that
/// says where free clusters are is read too. An error of the device is
/// passed on.
pub open spec fn volume_on<P: DeviceOperations>(partition: &P) -> Result<FatKind, VfsError> {
    match partition.spec_read(0, 1) {
        Err(e) => Err(e),
        Ok(sector) => match volume_kind(sector) {
            Err(e) => Err(e),
            Ok(FatKind::Fat32) => match partition.spec_read(le_u16(sector, 48) as u64, 1) {
                Err(e) => Err(e),
                Ok(info) => if info.len() < 512 {
                    Err(VfsError::Corrupt)
                } else {
                    Ok(FatKind::Fat32)
                },
            },
            Ok(kind) => Ok(kind),
        },
    }
}

/// The entries of the table that one sector of it holds.
pub open spec fn sector_entries(sector: Seq<u8>, kind: FatKind) -> Seq<u32> {
    Seq::new(
        (512int / kind.entry_size()) as nat,
        |j: int|
            if kind == FatKind::Fat32 {
                le_u32(sector, 4 * j)
            } else {
                le_u16(sector, 2 * j) as u32
            },
    )
}

/// The table of `count` sectors that begins at sector `start` of
/// `partition`, from its sector `i` on, after the entries `found`.
/// `Corrupt` where the device hands over anything but one sector.
pub open spec fn table_from<P: DeviceOperations>(
    partition: &P,
    start: u64,
    count: int,
    kind: FatKind,
    i: int,
    found: Seq<u32>,
) -> Result<Seq<u32>, VfsError>
    decreases count - i,
{
    if i < 0 || i >= count || start + i > u64::MAX {
        Ok(found)
    } else {
        match partition.spec_read((start + i) as u64, 1) {
            Err(e) => Err(e),
            Ok(sector) => if sector.len() != 512 {
                Err(VfsError::Corrupt)
            } else {
                table_from(
                    partition,
                    start,
                    count,
                    kind,
                    i + 1,
                    found + sector_entries(sector, kind),
                )
            },
        }
    }
}

impl<P: DeviceOperations> FatFs<P> {
    /// Sectors and clusters have a size, the size of a cluster is kept in
    /// bytes, and the table begins after the reserved sectors.
    pub open spec fn inv(&self) -> bool {
        &&& self.bpb.bytes_per_sector > 0
        &&& self.bpb.sectors_per_cluster > 0
        &&& self.cluster_size == self.bpb.sectors_per_cluster * 512
        &&& self.fat_start == self.bpb.reserved_sectors
        &&& self.sectors_per_fat <= u32::MAX
    }

    /// The variant of the volume.
    pub open spec fn kind(&self) -> FatKind {
        self.fat_type.spec_kind()
    }

    /// Opens the volume on `partition`; see [`volume_on`]. The volume
    /// comes back with its parameter block, its variant and the size of
    /// its table, and without the table in memory.
    pub fn new(partition: P, fat_in_mem: bool) -> (r: Result<Self, VfsError>)
        ensures
            match r {
                Ok(fs) => {
                    let sector = partition.spec_read(0, 1)->Ok_0;
                    &&& fs.inv()
                    &&& fs.partition == partition
                    &&& fs.fat_in_mem == fat_in_mem
                    &&& fs.fat is None
                    &&& volume_on(&partition) == Ok::<FatKind, VfsError>(fs.kind())
                    &&& fs.bpb.decodes(sector)
                    &&& fs.fat_type.decodes(sector)
                    &&& fs.sectors_per_fat == if fs.kind() == FatKind::Fat32 {
                        le_u32(sector, 36) as int
                    } else {
                        le_u16(sector, 22) as int
                    }
                    &&& fs.fs_info == if fs.kind() == FatKind::Fat32 {
                        Some(
                            FSInfo::parse(
                                partition.spec_read(le_u16(sector, 48) as u64, 1)->Ok_0,
                            ),
                        )
                    } else {
                        None
                    }
                },
                Err(e) => volume_on(&partition) == Err::<FatKind, VfsError>(e),
            },
    {
        let bpb_bytes = partition.read(0, 1)?;
        if bpb_bytes.len() < 512 {
            return Err(VfsError::Corrupt);
        }
        let sector = bpb_bytes.as_slice();
        let bpb = BIOSParameterBlock::from_bytes(sector);
        let small = Fat16EBPB::from_bytes(sector);
        let large = Fat32EBPB::from_bytes(sector);
        if bpb.bytes_per_sector == 0 || bpb.sectors_per_cluster == 0 {
            return Err(VfsError::Corrupt);
        }
        let (total_sectors, fat_size) = if bpb.total_sectors == 0 {
            (bpb.large_sector_count, large.sectors_per_fat_ext)
        } else {
            (bpb.total_sectors as u32, bpb.sectors_per_fat as u32)
        };

        let root_dir_sectors = bpb.root_dir_sectors();
        assert(bpb.fat_count * fat_size <= 0xFF * 0xFFFF_FFFF) by (nonlinear_arith)
            requires
                bpb.fat_count <= 0xFF,
                fat_size <= 0xFFFF_FFFF,
        ;
        let first_data_sector = bpb.reserved_sectors as u64 + (bpb.fat_count as u64
            * fat_size as u64) + root_dir_sectors as u64;
        assert(first_data_sector == layout(sector@).first_data_sector);
        if first_data_sector > total_sectors as u64 {
            return Err(VfsError::Corrupt);
        }
        let total_data_sectors = total_sectors as u64 - first_data_sector;

        let total_clusters = total_data_sectors / bpb.sectors_per_cluster as u64;
        assert(total_clusters == layout(sector@).total_clusters);

        let fat_type = if total_clusters < 4085 {
            FatType::Fat12(small)
        } else if total_clusters < 65525 {
            FatType::Fat16(small)
        } else {
            FatType::Fat32(large)
        };

        let fat12: [u8; 5] = [0x46, 0x41, 0x54, 0x31, 0x32];
        let fat16: [u8; 5] = [0x46, 0x41, 0x54, 0x31, 0x36];
        let fat32: [u8; 5] = [0x46, 0x41, 0x54, 0x33, 0x32];
        assert(fat12@ =~= FatKind::Fat12.name());
        assert(fat16@ =~= FatKind::Fat16.name());
        assert(fat32@ =~= FatKind::Fat32.name());
        let named = match &fat_type {
            FatType::Fat12(ebpb) => str_from_utf8(ebpb.system_identifier_string.as_slice()).is_some()
                && contains_bytes(ebpb.system_identifier_string.as_slice(), fat12.as_slice()),
            FatType::Fat16(ebpb) => str_from_utf8(ebpb.system_identifier_string.as_slice()).is_some()
                && contains_bytes(ebpb.system_identifier_string.as_slice(), fat16.as_slice()),
            FatType::Fat32(ebpb) => str_from_utf8(ebpb.system_identifier_string.as_slice()).is_some()
                && contains_bytes(ebpb.system_identifier_string.as_slice(), fat32.as_slice()),
        };
        if !named {
            return Err(VfsError::Corrupt);
        }
        assert(volume_kind(sector@) == Ok::<FatKind, VfsError>(fat_type.spec_kind()));

        let fs_info = match &fat_type {
            FatType::Fat32(ebpb) => {
                let fsinfo_bytes = partition.read(ebpb.fsinfo_sector as u64, 1)?;
                if fsinfo_bytes.len() < 512 {
                    return Err(VfsError::Corrupt);
                }
                Some(FSInfo::from_bytes(fsinfo_bytes.as_slice()))
            },
            _ => None,
        };

        let fat_start = bpb.reserved_sectors as u64;

        let sectors_per_fat = match &fat_type {
            FatType::Fat32(ebpb) => ebpb.sectors_per_fat_ext as usize,
            _ => bpb.sectors_per_fat as usize,
        };

        let cluster_size = bpb.sectors_per_cluster as usize * 512;

        Ok(
            Self {
                partition,
                fs_info,
                fat: None,
                bpb,
                fat_start,
                fat_type,
                cluster_size,
                sectors_per_fat,
                fat_in_mem,
            },
        )
    }

    /// The first sector after the tables and the root directory.
    pub open spec fn spec_first_data_sector(&self) -> int {
        self.bpb.reserved_sectors + self.bpb.fat_count * self.sectors_per_fat
            + self.bpb.spec_root_dir_sectors()
    }

    /// The first sector after the tables and the root directory.
    pub fn first_data_sector(&self) -> (r: u64)
        requires
            self.inv(),
        ensures
            r == self.spec_first_data_sector(),
            r <= 0xFFFF + 0xFF * 0xFFFF_FFFF + 0x30_0000,
    {
        let fat_size = self.sectors_per_fat as u64;
        assert(self.bpb.fat_count * fat_size <= 0xFF * 0xFFFF_FFFF) by (nonlinear_arith)
            requires
                self.bpb.fat_count <= 0xFF,
                fat_size <= 0xFFFF_FFFF,
        ;
        self.bpb.reserved_sectors as u64 + self.bpb.fat_count as u64 * fat_size
            + self.bpb.root_dir_sectors() as u64
    }

    /// The first sector of the cluster `cluster`. The clusters are numbered
    /// from 2 on, and follow the tables and the root directory. `None`
    /// where there is no such cluster, or no number for such a sector.
    pub open spec fn spec_cluster_to_sector(&self, cluster: usize) -> Option<u64> {
        let sector = self.spec_first_data_sector() + (cluster - 2) * self.bpb.sectors_per_cluster;
        if cluster < 2 || sector > u64::MAX {
            None
        } else {
            Some(sector as u64)
        }
    }

    /// The first sector of the cluster `cluster`.
    pub fn cluster_to_sector(&self, cluster: usize) -> (r: Option<u64>)
        requires
            self.inv(),
        ensures
            r == self.spec_cluster_to_sector(cluster),
    {
        if cluster < 2 {
            return None;
        }
        let index = (cluster - 2) as u128;
        let size = self.bpb.sectors_per_cluster as u128;
        assert(index * size <= 0xFFFF_FFFF_FFFF_FFFF * 0xFF) by (nonlinear_arith)
            requires
                index <= 0xFFFF_FFFF_FFFF_FFFF,
                size <= 0xFF,
        ;
        let sector = self.first_data_sector() as u128 + index * size;
        if sector > u64::MAX as u128 {
            None
        } else {
            Some(sector as u64)
        }
    }

    /// The cluster that the sector `sector` lies in. `None` for a sector
    /// before the first cluster, and where there is no number for the
    /// cluster.
    pub open spec fn spec_sector_to_cluster(&self, sector: u64) -> Option<u64> {
        let cluster = (sector - self.spec_first_data_sector()) / (
        self.bpb.sectors_per_cluster as int) + 2;
        if sector < self.spec_first_data_sector() || cluster > u64::MAX {
            None
        } else {
            Some(cluster as u64)
        }
    }

    /// The cluster that the sector `sector` lies in.
    pub fn sector_to_cluster(&self, sector: u64) -> (r: Option<u64>)
        requires
            self.inv(),
        ensures
            r == self.spec_sector_to_cluster(sector),
    {
        let first = self.first_data_sector();
        if sector < first {
            return None;
        }
        let index = (sector - first) / self.bpb.sectors_per_cluster as u64;
        index.checked_add(2)
    }

    /// What the cluster `cluster` holds: the sectors of the cluster, as
    /// the device reads them. `Corrupt` where there is no such cluster.
    pub open spec fn cluster_bytes(&self, cluster: usize) -> Result<Seq<u8>, VfsError> {
        match self.spec_cluster_to_sector(cluster) {
            None => Err(VfsError::Corrupt),
            Some(sector) => self.partition.spec_read(
                sector,
                self.bpb.sectors_per_cluster as usize,
            ),
        }
    }

    /// Reads the cluster `cluster`; see [`Self::cluster_bytes`].
    pub fn read_cluster(&self, cluster: usize) -> (r: Result<Vec<u8>, VfsError>)
        requires
            self.inv(),
        ensures
            view_bytes(r) == self.cluster_bytes(cluster),
    {
        match self.cluster_to_sector(cluster) {
            None => Err(VfsError::Corrupt),
            Some(sector) => self.partition.read(sector, self.bpb.sectors_per_cluster as usize),
        }
    }

    /// The entry of the table for the cluster `cluster`: the cluster that
    /// follows it in its chain, or a value that ends the chain.
    ///
    /// Where the table is in memory, the entry is taken from there. Else
    /// the two sectors of the table are read in which the entry lies, and
    /// the entry is taken from them: two bytes on a FAT12 or FAT16 volume,
    /// four on a FAT32 volume. Of an entry only the bits that the variant
    /// uses count.
    ///
    /// `Corrupt` where the table has no entry for the cluster, or the
    /// device hands over less than two sectors.
    pub open spec fn next_cluster(&self, cluster: usize) -> Result<u32, VfsError> {
        match self.fat {
            Some(table) => if cluster < table@.len() {
                Ok(table@[cluster as int] & self.kind().entry_mask())
            } else {
                Err(VfsError::Corrupt)
            },
            None => if cluster > u32::MAX {
                Err(VfsError::Corrupt)
            } else {
                let offset = cluster * self.kind().entry_size();
                match self.partition.spec_read((self.fat_start + offset / 512) as u64, 2) {
                    Err(e) => Err(e),
                    Ok(sectors) => if sectors.len() < 1024 {
                        Err(VfsError::Corrupt)
                    } else if self.kind() == FatKind::Fat32 {
                        Ok(le_u32(sectors, offset % 512) & self.kind().entry_mask())
                    } else {
                        Ok(le_u16(sectors, offset % 512) as u32 & self.kind().entry_mask())
                    },
                }
            },
        }
    }

    /// Reads the entry of the table for the cluster `cluster`; see
    /// [`Self::next_cluster`].
    pub fn get_next_cluster(&self, cluster: usize) -> (r: Result<u32, VfsError>)
        requires
            self.inv(),
        ensures
            r == self.next_cluster(cluster),
    {
        let mask: u32 = match self.fat_type {
            FatType::Fat12(_) => 0x0FFF,
            FatType::Fat16(_) => 0xFFFF,
            FatType::Fat32(_) => 0x0FFF_FFFF,
        };
        match &self.fat {
            Some(table) => {
                if cluster < table.len() {
                    Ok(table[cluster] & mask)
                } else {
                    Err(VfsError::Corrupt)
                }
            },
            None => {
                if cluster > u32::MAX as usize {
                    return Err(VfsError::Corrupt);
                }
                let fat_entry_size: u64 = match self.fat_type {
                    FatType::Fat12(_) => 2,
                    FatType::Fat16(_) => 2,
                    FatType::Fat32(_) => 4,
                };
                let entry_offset = cluster as u64 * fat_entry_size;
                let entry_offset_in_sector = (entry_offset % 512) as usize;

                // two sectors, in case the entry straddles a sector
                let sector_data = self.partition.read(self.fat_start + entry_offset / 512, 2)?;
                if sector_data.len() < 1024 {
                    return Err(VfsError::Corrupt);
                }
                match self.fat_type {
                    FatType::Fat32(_) => Ok(
                        read_le_u32(sector_data.as_slice(), entry_offset_in_sector) & mask,
                    ),
                    _ => Ok(
                        read_le_u16(sector_data.as_slice(), entry_offset_in_sector) as u32 & mask,
                    ),
                }
            },
        }
    }

    /// Whether the entry `entry` of the table ends a chain.
    pub fn is_end_of_chain(&self, entry: u32) -> (r: bool)
        ensures
            r == (entry >= self.kind().end_of_chain()),
    {
        match self.fat_type {
            FatType::Fat12(_) => entry >= EOC_12,
            FatType::Fat16(_) => entry >= EOC_16,
            FatType::Fat32(_) => entry >= EOC_32,
        }
    }
}

/// Where in an entry that holds a part of a long name the thirteen code
/// units of the part stand.
pub open spec fn unit_offsets() -> Seq<int> {
    seq![1, 3, 5, 7, 9, 14, 16, 18, 20, 22, 24, 28, 30]
}

/// The code units of the part of a long name that the entry at `at` in
/// `data` holds, from the unit `k` on. The units `0x0000` and `0xFFFF`
/// fill the part up and do not count.
pub open spec fn name_units(data: Seq<u8>, at: int, k: int) -> Seq<u16>
    decreases 13 - k,
{
    if k < 0 || k >= 13 {
        Seq::empty()
    } else {
        let unit = le_u16(data, at + unit_offsets()[k]);
        if unit == 0 || unit == 0xFFFF {
            name_units(data, at, k + 1)
        } else {
            seq![unit] + name_units(data, at, k + 1)
        }
    }
}

/// The short name of the entry at `at` in `data`: the name in eight bytes
/// and the extension in three, each without the white space at its end,
/// with a dot between them where there is an extension.
pub open spec fn short_name(data: Seq<u8>, at: int) -> Seq<u8> {
    let name = trimmed_end(data.subrange(at, at + 8));
    let extension = trimmed_end(data.subrange(at + 8, at + 11));
    if extension.len() == 0 {
        name
    } else {
        name + seq![0x2Eu8] + extension
    }
}

/// Whether an entry is the one that is looked for. An entry with a long
/// name `long_name` is, if that name is the name looked for, `name`. An
/// entry without one is, if its short name `short_name` is `upper_name`,
/// the name looked for in upper case, where that name is text at all.
pub open spec fn spec_names_match(
    long_name: Option<Seq<u8>>,
    short_name: Seq<u8>,
    name: Seq<u8>,
    upper_name: Option<Seq<u8>>,
) -> bool {
    match long_name {
        Some(long_name) => long_name == name,
        None => upper_name == Some(short_name),
    }
}

/// Whether an entry is the one that is looked for; see
/// [`spec_names_match`].
pub fn names_match(
    long_name: Option<&[u8]>,
    short_name: &[u8],
    name: &[u8],
    upper_name: Option<&[u8]>,
) -> (r: bool)
    ensures
        r == spec_names_match(
            match long_name {
                Some(n) => Some(n@),
                None => None,
            },
            short_name@,
            name@,
            match upper_name {
                Some(n) => Some(n@),
                None => None,
            },
        ),
{
    match long_name {
        Some(long_name) => bytes_eq(long_name, name),
        None => match upper_name {
            Some(upper_name) => bytes_eq(upper_name, short_name),
            None => false,
        },
    }
}

/// The name looked for in upper case, where it is text.
pub open spec fn upper_of(name: Seq<u8>) -> Option<Seq<u8>> {
    if valid_utf8(name) {
        Some(uppercase(name))
    } else {
        None
    }
}

/// Whether the entry at `at` in `data`, before which the code units
/// `pending` of a long name stand, is the entry for `name`.
///
/// `Corrupt` where the long name is no text, or the short name is not
/// valid UTF-8 in each of its two fields.
pub open spec fn entry_matches(data: Seq<u8>, at: int, pending: Seq<u16>, name: Seq<u8>) -> Result<
    bool,
    VfsError,
> {
    if pending.len() > 0 && utf16_text(pending) is None {
        Err(VfsError::Corrupt)
    } else if !valid_utf8(data.subrange(at, at + 8)) || !valid_utf8(
        data.subrange(at + 8, at + 11),
    ) {
        Err(VfsError::Corrupt)
    } else {
        Ok(
            spec_names_match(
                if pending.len() > 0 {
                    utf16_text(pending)
                } else {
                    None
                },
                short_name(data, at),
                name,
                upper_of(name),
            ),
        )
    }
}

/// The entry for `name` in the directory `data`, looked for from the
/// entry at `at` on, before which the code units `pending` of a long name
/// stand.
///
/// An entry that begins with `0x00` ends the directory, and one that
/// begins with `0xE5` is not in use. An entry with the attribute of a long
/// name holds a part of the name of the next entry that has another
/// attribute; the last part of a name comes first. `NotFound` where the
/// directory ends, or `data` does, before the entry is found.
pub open spec fn dir_find(data: Seq<u8>, at: int, pending: Seq<u16>, name: Seq<u8>) -> Result<
    FileEntry,
    VfsError,
>
    decreases data.len() - at,
{
    if at < 0 || at + 32 > data.len() {
        Err(VfsError::NotFound)
    } else if data[at] == 0x00 {
        Err(VfsError::NotFound)
    } else if data[at] == 0xE5 {
        dir_find(data, at + 32, pending, name)
    } else if data[at + 11] == ATTR_LONG_FILE_NAME {
        dir_find(data, at + 32, name_units(data, at, 0) + pending, name)
    } else {
        match entry_matches(data, at, pending, name) {
            Err(e) => Err(e),
            Ok(true) => Ok(FileEntry::parse(data, at)),
            Ok(false) => dir_find(data, at + 32, Seq::empty(), name),
        }
    }
}

/// The code units of the part of a long name that the entry at `at` in
/// `data` holds, followed by `pending`.
fn read_name_units(data: &[u8], at: usize, pending: &Vec<u16>) -> (r: Vec<u16>)
    requires
        at + 32 <= data@.len(),
    ensures
        r@ == name_units(data@, at as int, 0) + pending@,
{
    let len = data.len();
    assert(at + 32 <= len);
    let offsets: [usize; 13] = [1, 3, 5, 7, 9, 14, 16, 18, 20, 22, 24, 28, 30];
    let mut units: Vec<u16> = Vec::new();
    let mut k: usize = 0;
    while k < 13
        invariant
            k <= 13,
            at + 32 <= data@.len() <= usize::MAX,
            forall|j: int| 0 <= j < 13 ==> offsets@[j] == unit_offsets()[j],
            name_units(data@, at as int, 0) == units@ + name_units(data@, at as int, k as int),
        decreases 13 - k,
    {
        let unit = read_le_u16(data, at + offsets[k]);
        if unit != 0 && unit != 0xFFFF {
            proof {
                assert(units@.push(unit) + name_units(data@, at as int, k + 1) =~= units@ + (
                seq![unit] + name_units(data@, at as int, k + 1)));
            }
            units.push(unit);
        }
        k += 1;
    }
    proof {
        assert(units@ + Seq::<u16>::empty() =~= units@);
    }
    let mut j: usize = 0;
    let ghost first = units@;
    while j < pending.len()
        invariant
            j <= pending@.len(),
            units@ == first + pending@.take(j as int),
        decreases pending@.len() - j,
    {
        proof {
            assert((first + pending@.take(j as int)).push(pending@[j as int]) =~= first
                + pending@.take(j + 1));
        }
        units.push(pending[j]);
        j += 1;
    }
    proof {
        assert(pending@.take(pending@.len() as int) =~= pending@);
    }
    units
}

/// The short name of the entry at `at` in `data`; see [`short_name`].
fn read_short_name(data: &[u8], at: usize) -> (r: Vec<u8>)
    requires
        at + 32 <= data@.len(),
    ensures
        r@ == short_name(data@, at as int),
{
    let len = data.len();
    assert(at + 32 <= len);
    let raw_short_filename = trim_end(slice_subrange(data, at, at + 8));
    let raw_short_extension = trim_end(slice_subrange(data, at + 8, at + 11));
    let mut formatted: Vec<u8> = Vec::new();
    formatted.extend_from_slice(raw_short_filename);
    if raw_short_extension.len() != 0 {
        formatted.push(0x2E);
        formatted.extend_from_slice(raw_short_extension);
    }
    assert(formatted@ =~= short_name(data@, at as int));
    formatted
}

/// Looks for the entry for `name` in the directory `data`; see
/// [`dir_find`].
pub fn find_entry(data: &[u8], name: &[u8]) -> (r: Result<FileEntry, VfsError>)
    ensures
        r == dir_find(data@, 0, Seq::empty(), name@),
{
    let upper: Option<Vec<u8>> = match str_from_utf8(name) {
        Some(text) => Some(to_uppercase(text)),
        None => None,
    };
    // The parts of a long name come in entries of their own, before the
    // entry that they name.
    let mut long_filename: Vec<u16> = Vec::new();
    let mut at: usize = 0;
    let len = data.len();
    while at < len && len - at >= 32
        invariant
            len == data@.len(),
            at <= len,
            match upper {
                Some(u) => upper_of(name@) == Some(u@),
                None => upper_of(name@) is None,
            },
            dir_find(data@, 0, Seq::empty(), name@) == dir_find(
                data@,
                at as int,
                long_filename@,
                name@,
            ),
        decreases len - at,
    {
        let first_byte = data[at];

        if first_byte == 0x00 {
            // End of directory listing
            return Err(VfsError::NotFound);
        }
        if first_byte == 0xE5 {
            // Directory is unused, ignore it
            at += 32;
            continue ;
        }
        if data[at + 11] == ATTR_LONG_FILE_NAME {
            long_filename = read_name_units(data, at, &long_filename);
            at += 32;
            continue ;
        }
        let long_name: Option<Vec<u8>> = if long_filename.len() > 0 {
            match string_from_utf16(long_filename.as_slice()) {
                Some(text) => Some(text),
                None => {
                    return Err(VfsError::Corrupt);
                },
            }
        } else {
            None
        };
        if str_from_utf8(slice_subrange(data, at, at + 8)).is_none() || str_from_utf8(
            slice_subrange(data, at + 8, at + 11),
        ).is_none() {
            return Err(VfsError::Corrupt);
        }
        let short = read_short_name(data, at);
        let found = names_match(
            match &long_name {
                Some(n) => Some(n.as_slice()),
                None => None,
            },
            short.as_slice(),
            name,
            match &upper {
                Some(n) => Some(n.as_slice()),
                None => None,
            },
        );
        if found {
            return Ok(FileEntry::from_bytes(data, at));
        }
        long_filename = Vec::new();
        at += 32;
    }
    Err(VfsError::NotFound)
}

/// The smaller of two numbers.
pub open spec fn least(a: int, b: int) -> int {
    if a <= b {
        a
    } else {
        b
    }
}

impl<P: DeviceOperations> FatFs<P> {
    /// The cluster that comes `n` steps after `cluster` in its chain;
    /// `None` where the chain ends before.
    pub open spec fn cluster_after(&self, cluster: u32, n: int) -> Result<Option<u32>, VfsError>
        decreases n,
    {
        if n <= 0 {
            Ok(Some(cluster))
        } else {
            match self.next_cluster(cluster as usize) {
                Err(e) => Err(e),
                Ok(next) => if next >= self.kind().end_of_chain() {
                    Ok(None)
                } else {
                    self.cluster_after(next, n - 1)
                },
            }
        }
    }

    /// The `count` bytes that follow byte `within` of the cluster
    /// `cluster` along its chain, after `found`. Where the chain ends
    /// before, the bytes up to its end. `Corrupt` where the device hands
    /// over anything but a whole cluster.
    pub open spec fn chain_read(&self, cluster: u32, within: int, count: int, found: Seq<u8>) -> Result<
        Seq<u8>,
        VfsError,
    >
        decreases count,
    {
        if count <= 0 || within < 0 || within >= self.cluster_size {
            Ok(found)
        } else {
            match self.cluster_bytes(cluster as usize) {
                Err(e) => Err(e),
                Ok(data) => if data.len() != self.cluster_size {
                    Err(VfsError::Corrupt)
                } else {
                    let take = least(count, self.cluster_size - within);
                    let found = found + data.subrange(within, within + take);
                    if take == count {
                        Ok(found)
                    } else {
                        match self.next_cluster(cluster as usize) {
                            Err(e) => Err(e),
                            Ok(next) => if next >= self.kind().end_of_chain() {
                                Ok(found)
                            } else {
                                self.chain_read(next, 0, count - take, found)
                            },
                        }
                    }
                },
            }
        }
    }

    /// The `count` bytes from byte `offset` on of the file whose chain
    /// begins with the cluster `first`: the chain is followed to the
    /// cluster that holds byte `offset`, and read from there on. Where the
    /// chain ends before, the bytes up to its end.
    pub open spec fn file_bytes(&self, first: u32, count: int, offset: int) -> Result<
        Seq<u8>,
        VfsError,
    > {
        match self.cluster_after(first, offset / (self.cluster_size as int)) {
            Err(e) => Err(e),
            Ok(None) => Ok(Seq::empty()),
            Ok(Some(cluster)) => self.chain_read(
                cluster,
                offset % (self.cluster_size as int),
                count,
                Seq::empty(),
            ),
        }
    }

    /// Reads `count` bytes from byte `offset` on of the file `file`; see
    /// [`Self::file_bytes`].
    pub fn read_file(&self, file: &FileEntry, count: usize, offset: usize) -> (r: Result<
        Vec<u8>,
        VfsError,
    >)
        requires
            self.inv(),
        ensures
            view_bytes(r) == self.file_bytes(file.spec_cluster(), count as int, offset as int),
    {
        let mut cluster = file.cluster();
        let cluster_size = self.cluster_size;

        let mut cluster_offset = offset / cluster_size;
        while cluster_offset > 0
            invariant
                self.inv(),
                self.cluster_after(file.spec_cluster(), offset as int / (self.cluster_size as int))
                    == self.cluster_after(cluster, cluster_offset as int),
            decreases cluster_offset,
        {
            let next = self.get_next_cluster(cluster as usize)?;
            if self.is_end_of_chain(next) {
                return Ok(Vec::new());
            }
            cluster = next;
            cluster_offset -= 1;
        }
        let mut within = offset % cluster_size;
        let mut remaining = count;
        let mut bytes: Vec<u8> = Vec::new();

        while remaining > 0
            invariant
                self.inv(),
                cluster_size == self.cluster_size,
                within < cluster_size,
                self.chain_read(cluster, within as int, remaining as int, bytes@) == self.file_bytes(
                    file.spec_cluster(),
                    count as int,
                    offset as int,
                ),
            decreases remaining,
        {
            let cluster_data = self.read_cluster(cluster as usize)?;
            if cluster_data.len() != cluster_size {
                return Err(VfsError::Corrupt);
            }
            let to_copy = if remaining > cluster_size - within {
                cluster_size - within
            } else {
                remaining
            };

            let ghost before = bytes@;
            bytes.extend_from_slice(slice_subrange(cluster_data.as_slice(), within, within + to_copy));
            assert(bytes@ =~= before + cluster_data@.subrange(within as int, within + to_copy));
            assert(to_copy == least(remaining as int, self.cluster_size - within));
            assert(self.cluster_bytes(cluster as usize) == Ok::<Seq<u8>, VfsError>(cluster_data@));

            if to_copy == remaining {
                return Ok(bytes);
            }
            let next = self.get_next_cluster(cluster as usize)?;
            if self.is_end_of_chain(next) {
                return Ok(bytes);
            }
            within = 0;
            remaining -= to_copy;
            cluster = next;
        }
        Ok(bytes)
    }

    /// What the directory that begins at the sector `sector` lists under
    /// `name`: the entry that [`dir_find`] finds in the first cluster's
    /// worth of sectors of the directory.
    pub open spec fn dir_lookup(&self, sector: u64, name: Seq<u8>) -> Result<FileEntry, VfsError> {
        match self.partition.spec_read(sector, self.bpb.sectors_per_cluster as usize) {
            Err(e) => Err(e),
            Ok(data) => dir_find(data, 0, Seq::empty(), name),
        }
    }

    /// Looks `name` up in the directory that begins at the sector
    /// `sector`; see [`Self::dir_lookup`].
    pub fn find_entry_in_directory(&self, sector: u64, name: &[u8]) -> (r: Result<
        FileEntry,
        VfsError,
    >)
        requires
            self.inv(),
        ensures
            r == self.dir_lookup(sector, name@),
    {
        let data_sector = self.partition.read(sector, self.bpb.sectors_per_cluster as usize)?;
        find_entry(data_sector.as_slice(), name)
    }

    /// The sector where the root directory begins: on a FAT32 volume, the
    /// first sector of the cluster that the first sector names; else the
    /// sector after the tables. `None` where a FAT32 volume names no
    /// cluster.
    pub open spec fn spec_root_sector(&self) -> Option<u64> {
        match self.fat_type {
            FatType::Fat32(ebpb) => self.spec_cluster_to_sector(ebpb.root_dir_cluster as usize),
            _ => Some((self.bpb.reserved_sectors + self.bpb.fat_count * self.sectors_per_fat) as u64),
        }
    }

    /// The sector where the root directory begins.
    pub fn root_sector(&self) -> (r: Option<u64>)
        requires
            self.inv(),
        ensures
            r == self.spec_root_sector(),
    {
        match &self.fat_type {
            FatType::Fat32(ebpb) => self.cluster_to_sector(ebpb.root_dir_cluster as usize),
            _ => {
                let fat_size = self.sectors_per_fat as u64;
                assert(self.bpb.fat_count * fat_size <= 0xFF * 0xFFFF_FFFF) by (nonlinear_arith)
                    requires
                        self.bpb.fat_count <= 0xFF,
                        fat_size <= 0xFFFF_FFFF,
                ;
                Some(self.bpb.reserved_sectors as u64 + self.bpb.fat_count as u64 * fat_size)
            },
        }
    }

    /// The table of the volume, as it is read from the device sector by
    /// sector; see [`table_from`].
    pub open spec fn table(&self) -> Result<Seq<u32>, VfsError> {
        table_from(
            &self.partition,
            self.fat_start,
            self.sectors_per_fat as int,
            self.kind(),
            0,
            Seq::empty(),
        )
    }

    /// Reads the table of the volume; see [`Self::table`].
    pub fn read_table(&self) -> (r: Result<Vec<u32>, VfsError>)
        requires
            self.inv(),
        ensures
            match (r, self.table()) {
                (Ok(t), Ok(table)) => t@ == table,
                (Err(e1), Err(e2)) => e1 == e2,
                _ => false,
            },
    {
        let wide = match self.fat_type {
            FatType::Fat32(_) => true,
            _ => false,
        };
        let mut fat_vec: Vec<u32> = Vec::new();
        let mut i: usize = 0;
        while i < self.sectors_per_fat
            invariant
                self.inv(),
                i <= self.sectors_per_fat,
                wide == (self.kind() == FatKind::Fat32),
                self.table() == table_from(
                    &self.partition,
                    self.fat_start,
                    self.sectors_per_fat as int,
                    self.kind(),
                    i as int,
                    fat_vec@,
                ),
            decreases self.sectors_per_fat - i,
        {
            let sector = self.partition.read(self.fat_start + i as u64, 1)?;
            if sector.len() != 512 {
                return Err(VfsError::Corrupt);
            }
            let ghost before = fat_vec@;
            let entries: usize = if wide {
                128
            } else {
                256
            };
            let mut j: usize = 0;
            while j < entries
                invariant
                    j <= entries,
                    entries == 512int / self.kind().entry_size(),
                    wide == (self.kind() == FatKind::Fat32),
                    sector@.len() == 512,
                    fat_vec@ == before + sector_entries(sector@, self.kind()).take(j as int),
                decreases entries - j,
            {
                let entry = if wide {
                    read_le_u32(sector.as_slice(), 4 * j)
                } else {
                    read_le_u16(sector.as_slice(), 2 * j) as u32
                };
                proof {
                    let all = sector_entries(sector@, self.kind());
                    assert(all[j as int] == entry);
                    assert((before + all.take(j as int)).push(entry) =~= before + all.take(j + 1));
                }
                fat_vec.push(entry);
                j += 1;
            }
            proof {
                let all = sector_entries(sector@, self.kind());
                assert(all.take(entries as int) =~= all);
            }
            i += 1;
        }
        Ok(fat_vec)
    }
}

/// A file or a directory of a FAT volume.
#[derive(Clone, Copy, Debug, PartialEq, Eq, Structural)]
pub enum File {
    /// A file, by its entry in its directory.
    Archive(FileEntry),
    /// A directory, by the sector where it begins.
    Dir(u64),
}

/// The node that stands for what the entry `found` names in the mount
/// `vfsp`: a directory, by the first sector of its first cluster, where
/// the entry has the attribute of a directory, else a file. `Corrupt` where
/// a directory has no first cluster.
pub open spec fn node_of<P: DeviceOperations>(
    fs: &FatFs<P>,
    found: Result<FileEntry, VfsError>,
    vfsp: usize,
) -> Result<VNode<File>, VfsError> {
    match found {
        Err(e) => Err(e),
        Ok(entry) => if entry.attributes == ATTR_DIRECTORY {
            match fs.spec_cluster_to_sector(entry.spec_cluster() as usize) {
                None => Err(VfsError::Corrupt),
                Some(sector) => Ok(VNode::spec_new(File::Dir(sector), VNodeType::Directory, vfsp)),
            }
        } else {
            Ok(VNode::spec_new(File::Archive(entry), VNodeType::Regular, vfsp))
        },
    }
}

/// The volume as a file system. It is read-only: it can be mounted and
/// unmounted and hands out its root directory, and implements nothing
/// else.
impl<P: DeviceOperations> FsOps for FatFs<P> {
    type Node = File;

    open spec fn wf(&self) -> bool {
        self.inv()
    }

    open spec fn supports(&self, op: FsOp) -> bool {
        op == FsOp::Mount || op == FsOp::Unmount
    }

    /// Where the table is to be kept in memory, mounting reads it:
    /// afterwards the volume holds the table, or, where the table cannot be
    /// read, mounting fails and the volume stays as it is. Where the table
    /// is not to be kept in memory, mounting succeeds and the volume holds
    /// none. Nothing else of the volume changes.
    open spec fn mount_result(
        &self,
        path: Seq<u8>,
        vfsp: usize,
        after: &Self,
        r: Result<(), VfsError>,
    ) -> bool {
        &&& *after == (FatFs { fat: after.fat, ..*self })
        &&& if self.fat_in_mem {
            match self.table() {
                Ok(table) => r is Ok && after.fat is Some && after.fat->Some_0@ == table,
                Err(e) => r == Err::<(), VfsError>(e) && after.fat == self.fat,
            }
        } else {
            r is Ok && after.fat is None
        }
    }

    /// The root is the directory at [`FatFs::spec_root_sector`]; `Corrupt`
    /// where there is none. Asking for it leaves the volume as it is.
    open spec fn root_result(
        &self,
        vfsp: usize,
        after: &Self,
        r: Result<VNode<File>, VfsError>,
    ) -> bool {
        &&& *after == *self
        &&& r == match self.spec_root_sector() {
            Some(sector) => Ok::<VNode<File>, VfsError>(
                VNode::spec_new(File::Dir(sector), VNodeType::Directory, vfsp),
            ),
            None => Err(VfsError::Corrupt),
        }
    }

    /// A volume has no file identifiers.
    open spec fn fid_result(&self, path: Seq<u8>, vfsp: usize, r: Option<FileId>) -> bool {
        r is None
    }

    /// Where the table is to be kept in memory, it is read; where that
    /// fails, the volume stays as it is.
    fn mount(&mut self, _path: &[u8], _vfsp: usize) -> (r: Result<(), VfsError>) {
        if self.fat_in_mem {
            let fat = self.read_table()?;
            self.fat = Some(fat);
        } else {
            self.fat = None;
        }
        Ok(())
    }

    /// The table is dropped from memory; nothing else of the volume
    /// changes.
    fn unmount(&mut self, _vfsp: usize) -> (r: Result<(), VfsError>)
        ensures
            r is Ok,
            *final(self) == (FatFs { fat: None, ..*old(self) }),
    {
        self.fat = None;
        Ok(())
    }

    fn root(&mut self, vfsp: usize) -> (r: Result<VNode<File>, VfsError>)
        ensures
            *final(self) == *old(self),
    {
        match self.root_sector() {
            Some(sector) => Ok(VNode::new(File::Dir(sector), VNodeType::Directory, vfsp)),
            None => Err(VfsError::Corrupt),
        }
    }

    fn fid(&mut self, _path: &[u8], _vfsp: usize) -> (r: Option<FileId>) {
        None
    }

    fn statfs(&mut self, _vfsp: usize) -> (r: Result<StatFs, VfsError>) {
        Err(VfsError::Unsupported)
    }

    fn sync(&mut self, _vfsp: usize) -> (r: Result<(), VfsError>) {
        Err(VfsError::Unsupported)
    }

    fn vget(&mut self, _fid: FileId, _vfsp: usize) -> (r: Result<VNode<File>, VfsError>) {
        Err(VfsError::Unsupported)
    }
}

/// A file or a directory as a node of the volume. Files can be read and
/// directories searched; nothing can be changed.
impl<P: DeviceOperations> VNodeOperations<FatFs<P>> for File {
    open spec fn supports(&self, op: VNodeOp) -> bool {
        false
    }

    /// A file is as long as its entry says; a directory has no bytes to
    /// read.
    open spec fn spec_len(&self) -> usize {
        match self {
            File::Archive(archive) => archive.file_size as usize,
            File::Dir(_) => 0,
        }
    }

    open spec fn open_result(&self, fs: &FatFs<P>, f: u32, c: UserCred, r: Result<(), VfsError>) -> bool {
        r is Ok
    }

    open spec fn close_result(&self, fs: &FatFs<P>, f: u32, c: UserCred, r: Result<(), VfsError>) -> bool {
        r is Ok
    }

    /// A file reads as [`FatFs::file_bytes`] says; a directory does not
    /// read.
    open spec fn read_result(
        &self,
        fs: &FatFs<P>,
        count: usize,
        offset: usize,
        r: Result<Seq<u8>, VfsError>,
    ) -> bool {
        r == match self {
            File::Archive(archive) => fs.file_bytes(
                archive.spec_cluster(),
                count as int,
                offset as int,
            ),
            File::Dir(_) => Err(VfsError::Unsupported),
        }
    }

    /// A name resolves in a directory as [`FatFs::dir_lookup`] says, to
    /// the node that [`node_of`] makes of the entry; a file lists nothing.
    open spec fn lookup_result(
        &self,
        fs: &FatFs<P>,
        nm: Seq<u8>,
        vfsp: usize,
        r: Result<VNode<File>, VfsError>,
    ) -> bool {
        r == match self {
            File::Dir(sector) => node_of(fs, fs.dir_lookup(*sector, nm), vfsp),
            File::Archive(_) => Err(VfsError::NotFound),
        }
    }

    fn open(&mut self, _fs: &mut FatFs<P>, _f: u32, _c: UserCred) -> (r: Result<(), VfsError>)
        ensures
            *final(self) == *old(self),
            *final(_fs) == *old(_fs),
    {
        Ok(())
    }

    fn close(&mut self, _fs: &mut FatFs<P>, _f: u32, _c: UserCred) -> (r: Result<(), VfsError>)
        ensures
            *final(self) == *old(self),
            *final(_fs) == *old(_fs),
    {
        Ok(())
    }

    fn read(&mut self, fs: &mut FatFs<P>, count: usize, offset: usize, _f: u32, _c: UserCred) -> (r:
        Result<Vec<u8>, VfsError>)
        ensures
            *final(self) == *old(self),
            *final(fs) == *old(fs),
    {
        match self {
            File::Archive(archive) => fs.read_file(archive, count, offset),
            File::Dir(_) => Err(VfsError::Unsupported),
        }
    }

    fn write(&mut self, _fs: &mut FatFs<P>, _offset: usize, _buf: &[u8], _f: u32, _c: UserCred) -> (r:
        Result<(), VfsError>) {
        Err(VfsError::Unsupported)
    }

    fn ioctl(&mut self, _fs: &mut FatFs<P>, _com: u32, _d: usize, _f: u32, _c: UserCred) -> (r:
        Result<(), VfsError>) {
        Err(VfsError::Unsupported)
    }

    fn getattr(&mut self, _fs: &mut FatFs<P>, _c: UserCred) -> (r: Result<VAttr, VfsError>) {
        Err(VfsError::Unsupported)
    }

    fn setattr(&mut self, _fs: &mut FatFs<P>, _va: VAttr, _c: UserCred) -> (r: Result<
        (),
        VfsError,
    >) {
        Err(VfsError::Unsupported)
    }

    fn access(&mut self, _fs: &mut FatFs<P>, _m: u32, _c: UserCred) -> (r: Result<(), VfsError>) {
        Err(VfsError::Unsupported)
    }

    fn lookup(&mut self, fs: &mut FatFs<P>, nm: &[u8], _c: UserCred, vfsp: usize) -> (r: Result<
        VNode<File>,
        VfsError,
    >)
        ensures
            *final(self) == *old(self),
            *final(fs) == *old(fs),
    {
        match self {
            File::Dir(directory) => {
                let file_entry = fs.find_entry_in_directory(*directory, nm)?;

                if file_entry.is_directory() {
                    match fs.cluster_to_sector(file_entry.cluster() as usize) {
                        Some(sector) => Ok(
                            VNode::new(File::Dir(sector), VNodeType::Directory, vfsp),
                        ),
                        None => Err(VfsError::Corrupt),
                    }
                } else {
                    Ok(VNode::new(File::Archive(file_entry), VNodeType::Regular, vfsp))
                }
            },
            File::Archive(_) => Err(VfsError::NotFound),
        }
    }

    fn create(
        &mut self,
        _fs: &mut FatFs<P>,
        _nm: &[u8],
        _va: VAttr,
        _e: u32,
        _m: u32,
        _c: UserCred,
        _vfsp: usize,
    ) -> (r: Result<VNode<File>, VfsError>) {
        Err(VfsError::Unsupported)
    }

    fn link(
        &mut self,
        _fs: &mut FatFs<P>,
        _target_dir: &File,
        _target_name: &[u8],
        _c: UserCred,
    ) -> (r: Result<(), VfsError>) {
        Err(VfsError::Unsupported)
    }

    fn rename(
        &mut self,
        _fs: &mut FatFs<P>,
        _nm: &[u8],
        _target_dir: &File,
        _target_name: &[u8],
        _c: UserCred,
    ) -> (r: Result<(), VfsError>) {
        Err(VfsError::Unsupported)
    }

    fn mkdir(&mut self, _fs: &mut FatFs<P>, _nm: &[u8], _va: VAttr, _c: UserCred, _vfsp: usize) -> (r:
        Result<VNode<File>, VfsError>) {
        Err(VfsError::Unsupported)
    }

    fn readdir(&mut self, _fs: &mut FatFs<P>, _uiop: &UIO, _c: UserCred) -> (r: Result<
        (),
        VfsError,
    >) {
        Err(VfsError::Unsupported)
    }

    fn symlink(
        &mut self,
        _fs: &mut FatFs<P>,
        _link_name: &[u8],
        _va: VAttr,
        _target_name: &[u8],
        _c: UserCred,
    ) -> (r: Result<(), VfsError>) {
        Err(VfsError::Unsupported)
    }

    fn readlink(&mut self, _fs: &mut FatFs<P>, _uiop: &UIO, _c: UserCred) -> (r: Result<
        (),
        VfsError,
    >) {
        Err(VfsError::Unsupported)
    }

    fn fsync(&mut self, _fs: &mut FatFs<P>, _c: UserCred) -> (r: Result<(), VfsError>) {
        Err(VfsError::Unsupported)
    }

    fn len(&self) -> (n: usize) {
        match self {
            File::Archive(archive) => archive.file_size as usize,
            File::Dir(_) => 0,
        }
    }
}

} // verus!
