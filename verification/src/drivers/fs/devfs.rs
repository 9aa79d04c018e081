//! Devices as they appear in the file system.

use crate::drivers::fs::vfs::{view_bytes, VfsError};
use vstd::prelude::*;

verus! {

/// Whether a device is read byte by byte or in blocks.
#[derive(Clone, Copy, Debug, PartialEq, Eq, Structural)]
pub enum DeviceType {
    CharacterDevice,
    BlockDevice,
}

/// A device: its kind, its block size, its name, and what drives it.
pub struct Device<O> {
    pub typ: DeviceType,
    pub block_size: usize,
    pub name: Vec<u8>,
    pub ops: O,
}

/// What a block device does: it reads and writes whole sectors, and a
/// failure is an `IoFailure` that is passed on as it is.
///
/// Reading does not change the device, so what a read returns is a matter
/// of the device's state alone: `spec_read` says what. What a write does
/// is the device's to say, in `write_result`.
pub trait DeviceOperations {
    /// What reading `sector_count` sectors from sector `sector` on
    /// returns.
    spec fn spec_read(&self, sector: u64, sector_count: usize) -> Result<Seq<u8>, VfsError>;

    /// Reads `sector_count` sectors from sector `sector` on.
    fn read(&self, sector: u64, sector_count: usize) -> (r: Result<Vec<u8>, VfsError>)
        ensures
            view_bytes(r) == self.spec_read(sector, sector_count),
    ;

    /// Whether writing `data` from sector `sector` on can leave the device
    /// as `after` and return `r`.
    spec fn write_result(
        &self,
        sector: u64,
        data: Seq<u8>,
        after: &Self,
        r: Result<(), VfsError>,
    ) -> bool;

    /// Writes `data` from sector `sector` on.
    fn write(&mut self, sector: u64, data: &[u8]) -> (r: Result<(), VfsError>)
        ensures
            old(self).write_result(sector, data@, final(self), r),
            r is Err ==> r->Err_0 == VfsError::IoFailure,
    ;
}

impl<O: DeviceOperations> Device<O> {
    /// Reads `sector_count` sectors from sector `sector` on.
    pub fn read(&self, sector: u64, sector_count: usize) -> (r: Result<Vec<u8>, VfsError>)
        ensures
            view_bytes(r) == self.ops.spec_read(sector, sector_count),
    {
        self.ops.read(sector, sector_count)
    }

    /// Writes `data` from sector `sector` on: what drives the device does
    /// the writing, and nothing else of the device changes.
    pub fn write(&mut self, sector: u64, data: &[u8]) -> (r: Result<(), VfsError>)
        ensures
            old(self).ops.write_result(sector, data@, &final(self).ops, r),
            r is Err ==> r->Err_0 == VfsError::IoFailure,
            final(self).typ == old(self).typ,
            final(self).block_size == old(self).block_size,
            final(self).name == old(self).name,
    {
        self.ops.write(sector, data)
    }
}

} // verus!
