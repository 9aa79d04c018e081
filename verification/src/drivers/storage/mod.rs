//! Block devices, and how a disk is divided into partitions.

pub mod ide;

use crate::drivers::fs::devfs::DeviceOperations;
use crate::drivers::fs::vfs::{view_bytes, VfsError};
use crate::libs::bytes::{bytes_eq, copy_of};
use crate::libs::endian::{le_u16, le_u32, le_u64, read_le_u16, read_le_u32, read_le_u64};
use vstd::prelude::*;
use vstd::slice::slice_subrange;

verus! {

/// The size of a sector in bytes.
pub const SECTOR_SIZE: usize = 512;

/// A disk that is kept in memory.
pub struct RamDisk {
    pub data: Vec<u8>,
}

/// The bytes of the `sector_count` sectors from sector `sector` on of a
/// disk with the content `data`; an `IoFailure` where the disk ends before
/// they do.
pub open spec fn sectors_of(data: Seq<u8>, sector: u64, sector_count: usize) -> Result<
    Seq<u8>,
    VfsError,
> {
    if (sector + sector_count) * 512 > data.len() {
        Err(VfsError::IoFailure)
    } else {
        Ok(data.subrange(sector * 512, (sector + sector_count) * 512))
    }
}

impl RamDisk {
    /// A disk with the content `data`.
    pub fn new(data: Vec<u8>) -> (r: Self)
        ensures
            r.data == data,
    {
        RamDisk { data }
    }

    /// The number of whole sectors of the disk.
    pub fn sector_count(&self) -> (r: u64)
        ensures
            r == self.data@.len() / 512,
    {
        (self.data.len() / SECTOR_SIZE) as u64
    }
}

impl DeviceOperations for RamDisk {
    open spec fn spec_read(&self, sector: u64, sector_count: usize) -> Result<Seq<u8>, VfsError> {
        sectors_of(self.data@, sector, sector_count)
    }

    fn read(&self, sector: u64, sector_count: usize) -> (r: Result<Vec<u8>, VfsError>) {
        let len = self.data.len() as u128;
        let from = sector as u128 * 512;
        let to = (sector as u128 + sector_count as u128) * 512;
        if to > len {
            return Err(VfsError::IoFailure);
        }
        let mut out: Vec<u8> = Vec::new();
        out.extend_from_slice(slice_subrange(self.data.as_slice(), from as usize, to as usize));
        assert(out@ =~= self.data@.subrange(sector * 512, (sector + sector_count) * 512));
        Ok(out)
    }

    /// A write that fits the disk puts `data` where it belongs and leaves
    /// the rest as it was. One that does not fit is an `IoFailure`, and
    /// nothing is written.
    open spec fn write_result(
        &self,
        sector: u64,
        data: Seq<u8>,
        after: &Self,
        r: Result<(), VfsError>,
    ) -> bool {
        &&& after.data@.len() == self.data@.len()
        &&& match r {
            Ok(_) => sector * 512 + data.len() <= self.data@.len() && forall|i: int|
                0 <= i < self.data@.len() ==> after.data@[i] == if sector * 512 <= i < sector * 512
                    + data.len() {
                    data[i - sector * 512]
                } else {
                    self.data@[i]
                },
            Err(e) => e == VfsError::IoFailure && sector * 512 + data.len() > self.data@.len()
                && after.data@ == self.data@,
        }
    }

    fn write(&mut self, sector: u64, data: &[u8]) -> (r: Result<(), VfsError>) {
        let len = self.data.len() as u128;
        let from = sector as u128 * 512;
        if from + data.len() as u128 > len {
            return Err(VfsError::IoFailure);
        }
        let start = from as usize;
        let mut i: usize = 0;
        while i < data.len()
            invariant
                i <= data.len(),
                start == sector * 512,
                start + data.len() <= self.data.len(),
                self.data@.len() == old(self).data@.len(),
                forall|k: int|
                    0 <= k < self.data@.len() ==> self.data@[k] == if start <= k < start + i {
                        data@[k - start]
                    } else {
                        old(self).data@[k]
                    },
            decreases data.len() - i,
        {
            self.data.set(start + i, data[i]);
            i += 1;
        }
        Ok(())
    }
}

/// A part of a disk: the sectors from `start_sector` up to and with
/// `end_sector`.
pub struct Partition<P> {
    pub device: P,
    pub start_sector: u64,
    pub end_sector: u64,
}

impl<P: DeviceOperations> DeviceOperations for Partition<P> {
    /// A read inside the partition is a read of the disk, further on by
    /// the start of the partition; a read that runs past the end of the
    /// partition is an `IoFailure`.
    open spec fn spec_read(&self, sector: u64, sector_count: usize) -> Result<Seq<u8>, VfsError> {
        if self.start_sector + sector + sector_count > self.end_sector + 1 || self.start_sector
            + sector > u64::MAX {
            Err(VfsError::IoFailure)
        } else {
            self.device.spec_read((self.start_sector + sector) as u64, sector_count)
        }
    }

    fn read(&self, sector: u64, sector_count: usize) -> (r: Result<Vec<u8>, VfsError>) {
        if self.start_sector as u128 + sector as u128 + sector_count as u128 > self.end_sector as u128
            + 1 {
            return Err(VfsError::IoFailure);
        }
        match self.start_sector.checked_add(sector) {
            Some(first) => self.device.read(first, sector_count),
            None => Err(VfsError::IoFailure),
        }
    }

    /// A write inside the partition is a write to the disk, further on by
    /// the start of the partition. A write that runs past the end of the
    /// partition, counted in whole sectors, is an `IoFailure`, and the disk
    /// stays as it is. The partition itself stays where it is.
    open spec fn write_result(
        &self,
        sector: u64,
        data: Seq<u8>,
        after: &Self,
        r: Result<(), VfsError>,
    ) -> bool {
        &&& after.start_sector == self.start_sector
        &&& after.end_sector == self.end_sector
        &&& if self.start_sector + sector + (data.len() + 511) / 512 > self.end_sector + 1
            || self.start_sector + sector > u64::MAX {
            r == Err::<(), VfsError>(VfsError::IoFailure) && after.device == self.device
        } else {
            self.device.write_result(
                (self.start_sector + sector) as u64,
                data,
                &after.device,
                r,
            )
        }
    }

    fn write(&mut self, sector: u64, data: &[u8]) -> (r: Result<(), VfsError>) {
        let sectors = (data.len() as u128 + 511) / 512;
        if self.start_sector as u128 + sector as u128 + sectors > self.end_sector as u128 + 1 {
            return Err(VfsError::IoFailure);
        }
        match self.start_sector.checked_add(sector) {
            Some(first) => self.device.write(first, data),
            None => Err(VfsError::IoFailure),
        }
    }
}

/// The signature that a partition table sector ends with.
pub const MBR_SIGNATURE: u16 = 0xAA55;

/// The partition type of the one partition of a disk whose partitions are
/// listed in a GUID partition table.
pub const PROTECTIVE_MBR: u8 = 0xEE;

/// Whether the first sector `sector` of a disk says that a GUID partition
/// table follows: it ends with the signature, and its first partition has
/// the protective type.
pub open spec fn is_protective_mbr(sector: Seq<u8>) -> bool {
    sector.len() >= 512 && le_u16(sector, 510) == MBR_SIGNATURE && sector[450] == PROTECTIVE_MBR
}

/// Whether a GUID partition table follows the first sector; see
/// [`is_protective_mbr`].
pub fn check_mbr(sector: &[u8]) -> (r: bool)
    ensures
        r == is_protective_mbr(sector@),
{
    sector.len() >= 512 && read_le_u16(sector, 510) == MBR_SIGNATURE && sector[450]
        == PROTECTIVE_MBR
}

/// The header of a GUID partition table, as far as it is needed to find
/// the partitions.
#[derive(Clone, Copy, Debug, PartialEq, Eq, Structural)]
pub struct GPTHeader {
    pub partition_entry_lba: u64,
    pub partition_entry_count: u32,
    pub partition_entry_size: u32,
}

/// The bytes `EFI PART` that a header begins with.
pub open spec fn gpt_signature() -> Seq<u8> {
    seq![0x45u8, 0x46, 0x49, 0x20, 0x50, 0x41, 0x52, 0x54]
}

impl GPTHeader {
    /// The header in the sector `bytes`: the signature, then, at 72, the
    /// sector where the entries begin, at 80 their number and at 84 their
    /// size. `None` where the sector is cut short or does not begin with
    /// the signature.
    pub open spec fn parse(bytes: Seq<u8>) -> Option<Self> {
        if bytes.len() < 92 || bytes.subrange(0, 8) != gpt_signature() {
            None
        } else {
            Some(
                GPTHeader {
                    partition_entry_lba: le_u64(bytes, 72),
                    partition_entry_count: le_u32(bytes, 80),
                    partition_entry_size: le_u32(bytes, 84),
                },
            )
        }
    }

    /// Decodes the header of a GUID partition table; see [`Self::parse`].
    pub fn new(bytes: &[u8]) -> (r: Option<Self>)
        ensures
            r == Self::parse(bytes@),
    {
        let signature: [u8; 8] = [0x45, 0x46, 0x49, 0x20, 0x50, 0x41, 0x52, 0x54];
        assert(signature@ =~= gpt_signature());
        if bytes.len() < 92 || !bytes_eq(slice_subrange(bytes, 0, 8), signature.as_slice()) {
            return None;
        }
        Some(
            GPTHeader {
                partition_entry_lba: read_le_u64(bytes, 72),
                partition_entry_count: read_le_u32(bytes, 80),
                partition_entry_size: read_le_u32(bytes, 84),
            },
        )
    }

    /// How many sectors the entries take: their number times their size,
    /// in whole sectors.
    pub fn table_sectors(&self) -> (r: u64)
        ensures
            r == self.partition_entry_count * self.partition_entry_size / 512,
    {
        let count = self.partition_entry_count as u128;
        let size = self.partition_entry_size as u128;
        assert(count * size <= 0xFFFF_FFFF * 0xFFFF_FFFF) by (nonlinear_arith)
            requires
                count <= 0xFFFF_FFFF,
                size <= 0xFFFF_FFFF,
        ;
        (count * size / 512) as u64
    }
}

/// One entry of a GUID partition table.
#[derive(Debug)]
pub struct GPTPartitionEntry {
    pub partition_type_guid: Vec<u8>,
    pub unique_partition_guid: Vec<u8>,
    pub start_sector: u64,
    pub end_sector: u64,
    pub attributes: u64,
    pub partition_name: Vec<u8>,
}

/// What an entry of a GUID partition table holds.
pub struct GPTPartitionView {
    pub partition_type_guid: Seq<u8>,
    pub unique_partition_guid: Seq<u8>,
    pub start_sector: u64,
    pub end_sector: u64,
    pub attributes: u64,
    pub partition_name: Seq<u8>,
}

impl View for GPTPartitionEntry {
    type V = GPTPartitionView;

    open spec fn view(&self) -> GPTPartitionView {
        GPTPartitionView {
            partition_type_guid: self.partition_type_guid@,
            unique_partition_guid: self.unique_partition_guid@,
            start_sector: self.start_sector,
            end_sector: self.end_sector,
            attributes: self.attributes,
            partition_name: self.partition_name@,
        }
    }
}

/// The type of an entry that is not in use: sixteen zero bytes.
pub open spec fn unused_guid() -> Seq<u8> {
    Seq::new(16, |i: int| 0u8)
}

/// The type of the EFI system partition,
/// `C12A7328-F81F-11D2-BA4B-00A0C93EC93B`, as its bytes lie on disk.
pub open spec fn esp_guid() -> Seq<u8> {
    seq![
        0x28u8, 0x73, 0x2A, 0xC1, 0x1F, 0xF8, 0xD2, 0x11, 0xBA, 0x4B, 0x00, 0xA0, 0xC9, 0x3E, 0xC9,
        0x3B,
    ]
}

/// The entry that lies at byte `at` of the table `table`: the type in 16
/// bytes, the partition's own identifier in 16 bytes, its first and its
/// last sector, its attributes, and its name in 72 bytes.
pub open spec fn entry_at(table: Seq<u8>, at: int) -> GPTPartitionView {
    GPTPartitionView {
        partition_type_guid: table.subrange(at, at + 16),
        unique_partition_guid: table.subrange(at + 16, at + 32),
        start_sector: le_u64(table, at + 32),
        end_sector: le_u64(table, at + 40),
        attributes: le_u64(table, at + 48),
        partition_name: table.subrange(at + 56, at + 128),
    }
}

/// The entries of the table that are in use, from entry `i` on, after
/// `found`. `Corrupt` where the table is too short for an entry that the
/// header announces.
pub open spec fn partitions_from(
    table: Seq<u8>,
    header: GPTHeader,
    i: int,
    found: Seq<GPTPartitionView>,
) -> Result<Seq<GPTPartitionView>, VfsError>
    decreases header.partition_entry_count - i,
{
    if i < 0 || i >= header.partition_entry_count {
        Ok(found)
    } else {
        let at = i * header.partition_entry_size;
        if at + 128 > table.len() {
            Err(VfsError::Corrupt)
        } else if table.subrange(at, at + 16) == unused_guid() {
            partitions_from(table, header, i + 1, found)
        } else {
            partitions_from(table, header, i + 1, found.push(entry_at(table, at)))
        }
    }
}

/// What the entries hold.
pub open spec fn entry_views(v: Seq<GPTPartitionEntry>) -> Seq<GPTPartitionView> {
    Seq::new(v.len(), |i: int| v[i]@)
}

/// Whether `guid` is all zeros.
fn is_unused(guid: &[u8]) -> (r: bool)
    requires
        guid@.len() == 16,
    ensures
        r == (guid@ == unused_guid()),
{
    let mut i: usize = 0;
    while i < 16
        invariant
            i <= 16,
            guid@.len() == 16,
            forall|k: int| 0 <= k < i ==> guid@[k] == 0,
        decreases 16 - i,
    {
        if guid[i] != 0 {
            assert(guid@[i as int] != unused_guid()[i as int]);
            return false;
        }
        i += 1;
    }
    assert(guid@ =~= unused_guid());
    true
}

/// Reads the entries of a GUID partition table that are in use; see
/// [`partitions_from`].
pub fn read_partitions(table: &[u8], header: &GPTHeader) -> (r: Result<
    Vec<GPTPartitionEntry>,
    VfsError,
>)
    ensures
        match (r, partitions_from(table@, *header, 0, Seq::empty())) {
            (Ok(entries), Ok(views)) => entry_views(entries@) == views,
            (Err(e1), Err(e2)) => e1 == e2,
            _ => false,
        },
{
    let mut partitions: Vec<GPTPartitionEntry> = Vec::new();
    let mut i: u32 = 0;
    assert(entry_views(partitions@) =~= Seq::<GPTPartitionView>::empty());
    while i < header.partition_entry_count
        invariant
            i <= header.partition_entry_count,
            partitions_from(table@, *header, 0, Seq::empty()) == partitions_from(
                table@,
                *header,
                i as int,
                entry_views(partitions@),
            ),
        decreases header.partition_entry_count - i,
    {
        let index = i as u128;
        let size = header.partition_entry_size as u128;
        assert(index * size <= 0xFFFF_FFFF * 0xFFFF_FFFF) by (nonlinear_arith)
            requires
                index <= 0xFFFF_FFFF,
                size <= 0xFFFF_FFFF,
        ;
        let entry_offset = index * size;
        if entry_offset + 128 > table.len() as u128 {
            return Err(VfsError::Corrupt);
        }
        let at = entry_offset as usize;
        if is_unused(slice_subrange(table, at, at + 16)) {
            i += 1;
            continue ;
        }
        let entry = GPTPartitionEntry {
            partition_type_guid: copy_of(table, at, at + 16),
            unique_partition_guid: copy_of(table, at + 16, at + 32),
            start_sector: read_le_u64(table, at + 32),
            end_sector: read_le_u64(table, at + 40),
            attributes: read_le_u64(table, at + 48),
            partition_name: copy_of(table, at + 56, at + 128),
        };
        assert(entry@ == entry_at(table@, at as int));
        assert(entry_views(partitions@.push(entry)) =~= entry_views(partitions@).push(entry@));
        partitions.push(entry);
        i += 1;
    }
    Ok(partitions)
}

impl GPTPartitionEntry {
    /// Whether the partition is an EFI system partition.
    pub fn is_esp(&self) -> (r: bool)
        ensures
            r == (self.partition_type_guid@ == esp_guid()),
    {
        let esp: [u8; 16] = [
            0x28, 0x73, 0x2A, 0xC1, 0x1F, 0xF8, 0xD2, 0x11, 0xBA, 0x4B, 0x00, 0xA0, 0xC9, 0x3E,
            0xC9, 0x3B,
        ];
        assert(esp@ =~= esp_guid());
        bytes_eq(self.partition_type_guid.as_slice(), esp.as_slice())
    }
}

/// The partitions of the disk `device` that are in use.
///
/// The first sector has to end with the signature of a partition table,
/// else the disk is `Corrupt`; and it has to say that a GUID partition
/// table follows, else the disk is `Unsupported`. The second sector holds
/// the header of that table, without which the disk is `Corrupt`. The
/// entries are read from the third sector on, as [`partitions_from`] says.
/// An error of the device is passed on.
pub open spec fn partitions_on<P: DeviceOperations>(device: &P) -> Result<
    Seq<GPTPartitionView>,
    VfsError,
> {
    match device.spec_read(0, 1) {
        Err(e) => Err(e),
        Ok(first) => if first.len() < 512 || le_u16(first, 510) != MBR_SIGNATURE {
            Err(VfsError::Corrupt)
        } else if first[450] != PROTECTIVE_MBR {
            Err(VfsError::Unsupported)
        } else {
            match device.spec_read(1, 1) {
                Err(e) => Err(e),
                Ok(second) => match GPTHeader::parse(second) {
                    None => Err(VfsError::Corrupt),
                    Some(header) => {
                        let sectors = header.partition_entry_count * header.partition_entry_size
                            / 512;
                        if sectors > usize::MAX {
                            Err(VfsError::Corrupt)
                        } else {
                            match device.spec_read(2, sectors as usize) {
                                Err(e) => Err(e),
                                Ok(table) => partitions_from(table, header, 0, Seq::empty()),
                            }
                        }
                    },
                },
            }
        },
    }
}

/// Reads the partitions of the disk `device` that are in use; see
/// [`partitions_on`].
pub fn find_partitions<P: DeviceOperations>(device: &P) -> (r: Result<
    Vec<GPTPartitionEntry>,
    VfsError,
>)
    ensures
        match (r, partitions_on(device)) {
            (Ok(entries), Ok(views)) => entry_views(entries@) == views,
            (Err(e1), Err(e2)) => e1 == e2,
            _ => false,
        },
{
    let mbr_sector = device.read(0, 1)?;
    if mbr_sector.len() < 512 || read_le_u16(mbr_sector.as_slice(), 510) != MBR_SIGNATURE {
        return Err(VfsError::Corrupt);
    }
    if !check_mbr(mbr_sector.as_slice()) {
        return Err(VfsError::Unsupported);
    }
    let gpt_sector = device.read(1, 1)?;
    let gpt = match GPTHeader::new(gpt_sector.as_slice()) {
        Some(gpt) => gpt,
        None => {
            return Err(VfsError::Corrupt);
        },
    };
    let sectors = gpt.table_sectors();
    if sectors > usize::MAX as u64 {
        return Err(VfsError::Corrupt);
    }
    let partition_sector = device.read(2, sectors as usize)?;
    read_partitions(partition_sector.as_slice(), &gpt)
}

} // verus!
