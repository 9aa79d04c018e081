//! The file systems that the kernel knows, as one backend: a mount table
//! can then hold an archive at one path and a FAT volume at another.

use crate::drivers::fs::devfs::DeviceOperations;
use crate::drivers::fs::fat::{FatFs, File};
use crate::drivers::fs::initramfs::inode::Inode;
use crate::drivers::fs::initramfs::Squashfs;
use crate::drivers::fs::vfs::{
    FileId, FsOp, FsOps, StatFs, UserCred, VAttr, VNode, VNodeOp, VNodeOperations, VfsError, UIO,
};
use crate::libs::decompress::Decompressor;
use vstd::prelude::*;

verus! {

/// A file system of one of the kinds that the kernel knows.
pub enum Backend<D, P> {
    /// A read-only archive in memory.
    Archive(Squashfs<D>),
    /// A FAT volume on a block device.
    Fat(FatFs<P>),
}

/// A file or a directory of a [`Backend`]: the data of the file system
/// that it belongs to.
#[derive(Clone, Copy, Debug)]
pub enum BackendNode {
    Archive(Inode),
    Fat(File),
}

/// The node `node` of an archive, as a node of a backend.
pub open spec fn archive_node(node: VNode<Inode>) -> VNode<BackendNode> {
    VNode {
        flags: node.flags,
        ref_count: node.ref_count,
        inode: BackendNode::Archive(node.inode),
        vfs_mounted_here: node.vfs_mounted_here,
        parent_vfs: node.parent_vfs,
        file_typ: node.file_typ,
    }
}

/// The node `node` of a FAT volume, as a node of a backend.
pub open spec fn fat_node(node: VNode<File>) -> VNode<BackendNode> {
    VNode {
        flags: node.flags,
        ref_count: node.ref_count,
        inode: BackendNode::Fat(node.inode),
        vfs_mounted_here: node.vfs_mounted_here,
        parent_vfs: node.parent_vfs,
        file_typ: node.file_typ,
    }
}

/// What an archive answered with `r`, as the answer of a backend.
pub open spec fn archive_answer(r: Result<VNode<Inode>, VfsError>) -> Result<
    VNode<BackendNode>,
    VfsError,
> {
    match r {
        Ok(node) => Ok(archive_node(node)),
        Err(e) => Err(e),
    }
}

/// What a FAT volume answered with `r`, as the answer of a backend.
pub open spec fn fat_answer(r: Result<VNode<File>, VfsError>) -> Result<
    VNode<BackendNode>,
    VfsError,
> {
    match r {
        Ok(node) => Ok(fat_node(node)),
        Err(e) => Err(e),
    }
}

/// What the answer `r` of a backend is as the answer of an archive; `None`
/// where it is the node of another file system.
pub open spec fn as_archive_answer(r: Result<VNode<BackendNode>, VfsError>) -> Option<
    Result<VNode<Inode>, VfsError>,
> {
    match r {
        Err(e) => Some(Err(e)),
        Ok(node) => match node.inode {
            BackendNode::Archive(inode) => Some(
                Ok(
                    VNode {
                        flags: node.flags,
                        ref_count: node.ref_count,
                        inode,
                        vfs_mounted_here: node.vfs_mounted_here,
                        parent_vfs: node.parent_vfs,
                        file_typ: node.file_typ,
                    },
                ),
            ),
            _ => None,
        },
    }
}

/// What the answer `r` of a backend is as the answer of a FAT volume;
/// `None` where it is the node of another file system.
pub open spec fn as_fat_answer(r: Result<VNode<BackendNode>, VfsError>) -> Option<
    Result<VNode<File>, VfsError>,
> {
    match r {
        Err(e) => Some(Err(e)),
        Ok(node) => match node.inode {
            BackendNode::Fat(inode) => Some(
                Ok(
                    VNode {
                        flags: node.flags,
                        ref_count: node.ref_count,
                        inode,
                        vfs_mounted_here: node.vfs_mounted_here,
                        parent_vfs: node.parent_vfs,
                        file_typ: node.file_typ,
                    },
                ),
            ),
            _ => None,
        },
    }
}

/// The answer of an archive, as the answer of a backend.
fn from_archive(r: Result<VNode<Inode>, VfsError>) -> (out: Result<VNode<BackendNode>, VfsError>)
    ensures
        out == archive_answer(r),
        as_archive_answer(out) == Some(r),
{
    match r {
        Ok(node) => Ok(
            VNode {
                flags: node.flags,
                ref_count: node.ref_count,
                inode: BackendNode::Archive(node.inode),
                vfs_mounted_here: node.vfs_mounted_here,
                parent_vfs: node.parent_vfs,
                file_typ: node.file_typ,
            },
        ),
        Err(e) => Err(e),
    }
}

/// The answer of a FAT volume, as the answer of a backend.
fn from_fat(r: Result<VNode<File>, VfsError>) -> (out: Result<VNode<BackendNode>, VfsError>)
    ensures
        out == fat_answer(r),
        as_fat_answer(out) == Some(r),
{
    match r {
        Ok(node) => Ok(
            VNode {
                flags: node.flags,
                ref_count: node.ref_count,
                inode: BackendNode::Fat(node.inode),
                vfs_mounted_here: node.vfs_mounted_here,
                parent_vfs: node.parent_vfs,
                file_typ: node.file_typ,
            },
        ),
        Err(e) => Err(e),
    }
}

impl<D, P> Backend<D, P> {
    /// The backend as unmounting leaves it: an archive stays as it is, and
    /// a FAT volume drops its table from memory.
    pub open spec fn unmounted(self) -> Self {
        match self {
            Backend::Archive(fs) => Backend::Archive(fs),
            Backend::Fat(fs) => Backend::Fat(FatFs { fat: None, ..fs }),
        }
    }
}

/// A backend does what the file system in it does.
impl<D: Decompressor + Copy, P: DeviceOperations> FsOps for Backend<D, P> {
    type Node = BackendNode;

    open spec fn wf(&self) -> bool {
        match self {
            Backend::Archive(fs) => fs.wf(),
            Backend::Fat(fs) => fs.wf(),
        }
    }

    open spec fn supports(&self, op: FsOp) -> bool {
        match self {
            Backend::Archive(fs) => fs.supports(op),
            Backend::Fat(fs) => fs.supports(op),
        }
    }

    open spec fn mount_result(
        &self,
        path: Seq<u8>,
        vfsp: usize,
        after: &Self,
        r: Result<(), VfsError>,
    ) -> bool {
        match (self, after) {
            (Backend::Archive(fs), Backend::Archive(after)) => fs.mount_result(
                path,
                vfsp,
                after,
                r,
            ),
            (Backend::Fat(fs), Backend::Fat(after)) => fs.mount_result(path, vfsp, after, r),
            _ => false,
        }
    }

    open spec fn fid_result(&self, path: Seq<u8>, vfsp: usize, r: Option<FileId>) -> bool {
        match self {
            Backend::Archive(fs) => fs.fid_result(path, vfsp, r),
            Backend::Fat(fs) => fs.fid_result(path, vfsp, r),
        }
    }

    open spec fn root_result(
        &self,
        vfsp: usize,
        after: &Self,
        r: Result<VNode<BackendNode>, VfsError>,
    ) -> bool {
        match (self, after) {
            (Backend::Archive(fs), Backend::Archive(after)) => as_archive_answer(r) is Some
                && fs.root_result(vfsp, after, as_archive_answer(r)->Some_0),
            (Backend::Fat(fs), Backend::Fat(after)) => as_fat_answer(r) is Some && fs.root_result(
                vfsp,
                after,
                as_fat_answer(r)->Some_0,
            ),
            _ => false,
        }
    }

    fn mount(&mut self, path: &[u8], vfsp: usize) -> (r: Result<(), VfsError>) {
        match self {
            Backend::Archive(fs) => fs.mount(path, vfsp),
            Backend::Fat(fs) => fs.mount(path, vfsp),
        }
    }

    /// Unmounting succeeds and leaves the backend as [`Backend::unmounted`]
    /// says.
    fn unmount(&mut self, vfsp: usize) -> (r: Result<(), VfsError>)
        ensures
            r is Ok,
            *final(self) == old(self).unmounted(),
    {
        match self {
            Backend::Archive(fs) => fs.unmount(vfsp),
            Backend::Fat(fs) => fs.unmount(vfsp),
        }
    }

    fn root(&mut self, vfsp: usize) -> (r: Result<VNode<BackendNode>, VfsError>) {
        match self {
            Backend::Archive(fs) => from_archive(fs.root(vfsp)),
            Backend::Fat(fs) => from_fat(fs.root(vfsp)),
        }
    }

    fn statfs(&mut self, vfsp: usize) -> (r: Result<StatFs, VfsError>) {
        match self {
            Backend::Archive(fs) => fs.statfs(vfsp),
            Backend::Fat(fs) => fs.statfs(vfsp),
        }
    }

    fn sync(&mut self, vfsp: usize) -> (r: Result<(), VfsError>) {
        match self {
            Backend::Archive(fs) => fs.sync(vfsp),
            Backend::Fat(fs) => fs.sync(vfsp),
        }
    }

    fn fid(&mut self, path: &[u8], vfsp: usize) -> (r: Option<FileId>) {
        match self {
            Backend::Archive(fs) => fs.fid(path, vfsp),
            Backend::Fat(fs) => fs.fid(path, vfsp),
        }
    }

    fn vget(&mut self, fid: FileId, vfsp: usize) -> (r: Result<VNode<BackendNode>, VfsError>) {
        match self {
            Backend::Archive(fs) => from_archive(fs.vget(fid, vfsp)),
            Backend::Fat(fs) => from_fat(fs.vget(fid, vfsp)),
        }
    }
}

/// A node of a backend does what the node in it does, with the file
/// system that it belongs to. With a file system of another kind it does
/// nothing: every operation is `Unsupported`.
impl<D: Decompressor + Copy, P: DeviceOperations> VNodeOperations<Backend<D, P>> for BackendNode {
    open spec fn supports(&self, op: VNodeOp) -> bool {
        false
    }

    open spec fn spec_len(&self) -> usize {
        match self {
            BackendNode::Archive(inode) => VNodeOperations::<Squashfs<D>>::spec_len(inode),
            BackendNode::Fat(file) => VNodeOperations::<FatFs<P>>::spec_len(file),
        }
    }

    open spec fn open_result(
        &self,
        fs: &Backend<D, P>,
        f: u32,
        c: UserCred,
        r: Result<(), VfsError>,
    ) -> bool {
        match (self, fs) {
            (BackendNode::Archive(inode), Backend::Archive(fs)) => inode.open_result(fs, f, c, r),
            (BackendNode::Fat(file), Backend::Fat(fs)) => file.open_result(fs, f, c, r),
            _ => r == Err::<(), VfsError>(VfsError::Unsupported),
        }
    }

    open spec fn close_result(
        &self,
        fs: &Backend<D, P>,
        f: u32,
        c: UserCred,
        r: Result<(), VfsError>,
    ) -> bool {
        match (self, fs) {
            (BackendNode::Archive(inode), Backend::Archive(fs)) => inode.close_result(fs, f, c, r),
            (BackendNode::Fat(file), Backend::Fat(fs)) => file.close_result(fs, f, c, r),
            _ => r == Err::<(), VfsError>(VfsError::Unsupported),
        }
    }

    open spec fn read_result(
        &self,
        fs: &Backend<D, P>,
        count: usize,
        offset: usize,
        r: Result<Seq<u8>, VfsError>,
    ) -> bool {
        match (self, fs) {
            (BackendNode::Archive(inode), Backend::Archive(fs)) => inode.read_result(
                fs,
                count,
                offset,
                r,
            ),
            (BackendNode::Fat(file), Backend::Fat(fs)) => file.read_result(fs, count, offset, r),
            _ => r == Err::<Seq<u8>, VfsError>(VfsError::Unsupported),
        }
    }

    open spec fn lookup_result(
        &self,
        fs: &Backend<D, P>,
        nm: Seq<u8>,
        vfsp: usize,
        r: Result<VNode<BackendNode>, VfsError>,
    ) -> bool {
        match (self, fs) {
            (BackendNode::Archive(inode), Backend::Archive(fs)) => as_archive_answer(r) is Some
                && inode.lookup_result(fs, nm, vfsp, as_archive_answer(r)->Some_0),
            (BackendNode::Fat(file), Backend::Fat(fs)) => as_fat_answer(r) is Some
                && file.lookup_result(fs, nm, vfsp, as_fat_answer(r)->Some_0),
            _ => r == Err::<VNode<BackendNode>, VfsError>(VfsError::Unsupported),
        }
    }

    fn open(&mut self, fs: &mut Backend<D, P>, f: u32, c: UserCred) -> (r: Result<(), VfsError>) {
        match self {
            BackendNode::Archive(inode) => match fs {
                Backend::Archive(fs) => inode.open(fs, f, c),
                _ => Err(VfsError::Unsupported),
            },
            BackendNode::Fat(file) => match fs {
                Backend::Fat(fs) => file.open(fs, f, c),
                _ => Err(VfsError::Unsupported),
            },
        }
    }

    fn close(&mut self, fs: &mut Backend<D, P>, f: u32, c: UserCred) -> (r: Result<(), VfsError>) {
        match self {
            BackendNode::Archive(inode) => match fs {
                Backend::Archive(fs) => inode.close(fs, f, c),
                _ => Err(VfsError::Unsupported),
            },
            BackendNode::Fat(file) => match fs {
                Backend::Fat(fs) => file.close(fs, f, c),
                _ => Err(VfsError::Unsupported),
            },
        }
    }

    fn read(&mut self, fs: &mut Backend<D, P>, count: usize, offset: usize, f: u32, c: UserCred) -> (r:
        Result<Vec<u8>, VfsError>) {
        match self {
            BackendNode::Archive(inode) => match fs {
                Backend::Archive(fs) => inode.read(fs, count, offset, f, c),
                _ => Err(VfsError::Unsupported),
            },
            BackendNode::Fat(file) => match fs {
                Backend::Fat(fs) => file.read(fs, count, offset, f, c),
                _ => Err(VfsError::Unsupported),
            },
        }
    }

    fn lookup(&mut self, fs: &mut Backend<D, P>, nm: &[u8], c: UserCred, vfsp: usize) -> (r: Result<
        VNode<BackendNode>,
        VfsError,
    >) {
        match self {
            BackendNode::Archive(inode) => match fs {
                Backend::Archive(fs) => from_archive(inode.lookup(fs, nm, c, vfsp)),
                _ => Err(VfsError::Unsupported),
            },
            BackendNode::Fat(file) => match fs {
                Backend::Fat(fs) => from_fat(file.lookup(fs, nm, c, vfsp)),
                _ => Err(VfsError::Unsupported),
            },
        }
    }

    fn write(&mut self, _fs: &mut Backend<D, P>, _offset: usize, _buf: &[u8], _f: u32, _c: UserCred) -> (r:
        Result<(), VfsError>) {
        Err(VfsError::Unsupported)
    }

    fn ioctl(&mut self, _fs: &mut Backend<D, P>, _com: u32, _d: usize, _f: u32, _c: UserCred) -> (r:
        Result<(), VfsError>) {
        Err(VfsError::Unsupported)
    }

    fn getattr(&mut self, _fs: &mut Backend<D, P>, _c: UserCred) -> (r: Result<VAttr, VfsError>) {
        Err(VfsError::Unsupported)
    }

    fn setattr(&mut self, _fs: &mut Backend<D, P>, _va: VAttr, _c: UserCred) -> (r: Result<
        (),
        VfsError,
    >) {
        Err(VfsError::Unsupported)
    }

    fn access(&mut self, _fs: &mut Backend<D, P>, _m: u32, _c: UserCred) -> (r: Result<(), VfsError>) {
        Err(VfsError::Unsupported)
    }

    fn create(
        &mut self,
        _fs: &mut Backend<D, P>,
        _nm: &[u8],
        _va: VAttr,
        _e: u32,
        _m: u32,
        _c: UserCred,
        _vfsp: usize,
    ) -> (r: Result<VNode<BackendNode>, VfsError>) {
        Err(VfsError::Unsupported)
    }

    fn link(
        &mut self,
        _fs: &mut Backend<D, P>,
        _target_dir: &BackendNode,
        _target_name: &[u8],
        _c: UserCred,
    ) -> (r: Result<(), VfsError>) {
        Err(VfsError::Unsupported)
    }

    fn rename(
        &mut self,
        _fs: &mut Backend<D, P>,
        _nm: &[u8],
        _target_dir: &BackendNode,
        _target_name: &[u8],
        _c: UserCred,
    ) -> (r: Result<(), VfsError>) {
        Err(VfsError::Unsupported)
    }

    fn mkdir(&mut self, _fs: &mut Backend<D, P>, _nm: &[u8], _va: VAttr, _c: UserCred, _vfsp: usize) -> (r:
        Result<VNode<BackendNode>, VfsError>) {
        Err(VfsError::Unsupported)
    }

    fn readdir(&mut self, _fs: &mut Backend<D, P>, _uiop: &UIO, _c: UserCred) -> (r: Result<
        (),
        VfsError,
    >) {
        Err(VfsError::Unsupported)
    }

    fn symlink(
        &mut self,
        _fs: &mut Backend<D, P>,
        _link_name: &[u8],
        _va: VAttr,
        _target_name: &[u8],
        _c: UserCred,
    ) -> (r: Result<(), VfsError>) {
        Err(VfsError::Unsupported)
    }

    fn readlink(&mut self, _fs: &mut Backend<D, P>, _uiop: &UIO, _c: UserCred) -> (r: Result<
        (),
        VfsError,
    >) {
        Err(VfsError::Unsupported)
    }

    fn fsync(&mut self, _fs: &mut Backend<D, P>, _c: UserCred) -> (r: Result<(), VfsError>) {
        Err(VfsError::Unsupported)
    }

    fn len(&self) -> (n: usize) {
        match self {
            BackendNode::Archive(inode) => VNodeOperations::<Squashfs<D>>::len(inode),
            BackendNode::Fat(file) => VNodeOperations::<FatFs<P>>::len(file),
        }
    }
}

} // verus!
