//! The virtual file system: one namespace over several backends.
//!
//! A backend offers two sets of operations: [`FsOps`] on a mounted file
//! system as a whole, and [`VNodeOperations`] on one of its files or
//! directories. The [`VfsContext`] holds the mounts and a cache of the paths
//! resolved so far; [`add_vfs`], [`del_vfs`] and [`vfs_open`] work on it.
//!
//! Nothing here is synchronised: a context belongs to one thread of control
//! at a time, and its operations run to completion.

use vstd::prelude::*;
use vstd::string::StringSliceAdditionalSpecFns;

verus! {

/// Why a file-system operation failed.
#[derive(Clone, Copy, Debug, PartialEq, Eq, Structural)]
pub enum VfsError {
    /// A path or a name does not resolve.
    NotFound,
    /// The backend does not implement the operation.
    Unsupported,
    /// On-disk data failed validation.
    Corrupt,
    /// The block device, or a read outside a file, failed.
    IoFailure,
    /// A compressed stream is malformed or fails its checksum.
    DecompressFailure,
}

/// Why a mount could not be added or removed.
#[derive(Clone, Copy, Debug, PartialEq, Eq, Structural)]
pub enum MountError {
    /// A root mount exists already.
    RootMounted,
    /// There is no root mount yet.
    NoRoot,
    /// Something is mounted at the path already.
    AlreadyMounted,
    /// The path to mount at does not resolve.
    TargetNotFound,
    /// Another mount lies below the one to remove.
    Busy,
    /// The backend failed.
    Backend(VfsError),
}

/// The credentials an operation is performed with.
#[derive(Clone, Copy, Debug, PartialEq, Eq, Structural)]
pub struct UserCred {
    pub uid: u16,
    pub gid: u16,
}

/// A backend's own identifier of a file.
#[derive(Clone, Copy, Debug, PartialEq, Eq, Structural)]
pub struct FileId {
    pub len: u16,
    pub data: u8,
}

/// Usage figures of a mounted file system.
#[derive(Clone, Copy, Debug)]
pub struct StatFs {
    pub typ: u32,
    pub block_size: u32,
    pub total_blocks: u32,
    pub free_blocks: u32,
    pub available_blocks: u32,
    pub files: u32,
    pub free_nodes: u32,
    pub fs_id: u32,
    pub _reserved: [u8; 7],
}

/// The kind of file a node stands for.
#[derive(Clone, Copy, Debug, PartialEq, Eq, Structural)]
pub enum VNodeType {
    NON,
    Regular,
    Directory,
    Block,
    Character,
    Link,
    Socket,
    Bad,
}

/// One buffer of a scattered transfer: where it lies and how long it is.
#[derive(Clone, Copy, Debug, PartialEq, Eq, Structural)]
pub struct IoVec {
    pub iov_base: usize,
    pub iov_len: usize,
}

/// A scattered transfer.
#[derive(Debug)]
pub struct UIO {
    pub iov: Vec<IoVec>,
    pub iov_count: u32,
    pub offset: usize,
    pub seg_flag: u32,
    pub file_mode: u32,
    pub max_offset: usize,
    pub residual_count: u32,
}

/// The attributes of a file.
#[derive(Clone, Copy, Debug)]
pub struct VAttr {
    pub typ: VNodeType,
    pub mode: u16,
    pub uid: u16,
    pub gid: u16,
    pub fs_id: u32,
    pub node_id: u32,
    pub link_count: u16,
    pub size: u32,
    pub block_size: u32,
    pub last_access: u32,
    pub last_modify: u32,
    pub last_chg: u32,
    pub rdev: (),
    pub used_blocks: u32,
}

/// The operations of [`FsOps`] that a backend may decline.
#[derive(Clone, Copy, Debug, PartialEq, Eq, Structural)]
pub enum FsOp {
    Mount,
    Unmount,
    StatFs,
    Sync,
    Fid,
    VGet,
}

/// The operations of [`VNodeOperations`] that a backend may decline.
#[derive(Clone, Copy, Debug, PartialEq, Eq, Structural)]
pub enum VNodeOp {
    Write,
    Ioctl,
    GetAttr,
    SetAttr,
    Access,
    Create,
    Link,
    Rename,
    Mkdir,
    ReadDir,
    Symlink,
    ReadLink,
    Fsync,
}

/// The bytes of a read's result.
pub open spec fn view_bytes(r: Result<Vec<u8>, VfsError>) -> Result<Seq<u8>, VfsError> {
    match r {
        Ok(bytes) => Ok(bytes@),
        Err(e) => Err(e),
    }
}

/// Whether a read of `count` bytes at `offset` lies inside a file of `len`
/// bytes: it starts before the end and does not run past it.
pub open spec fn read_in_range(len: usize, count: usize, offset: usize) -> bool {
    offset < len && offset + count <= len
}

/// A handle to one file or directory of a backend.
pub struct VNode<N> {
    pub flags: u16,
    /// How many times the node is open.
    pub ref_count: u32,
    /// The backend's own data for the node.
    pub inode: N,
    /// The mount that covers this node, if one does: traversal below the
    /// node goes to that mount's root.
    pub vfs_mounted_here: Option<usize>,
    /// The mount that the node belongs to.
    pub parent_vfs: usize,
    pub file_typ: VNodeType,
}

/// The operations on a mounted file system as a whole.
///
/// `vfsp` is the handle of the mount that the backend serves: the nodes it
/// hands out carry it as their `parent_vfs`.
///
/// An operation that a backend does not implement fails with `Unsupported`
/// and changes nothing. What the others return is the backend's to say, in
/// the `_result` predicates.
pub trait FsOps: Sized {
    /// The backend's own data for a node.
    type Node;

    /// The backend's invariant.
    spec fn wf(&self) -> bool;

    /// Whether the backend implements `op`.
    spec fn supports(&self, op: FsOp) -> bool;

    /// Whether `mount` can leave the file system as `after` and return `r`
    /// in this state.
    spec fn mount_result(
        &self,
        path: Seq<u8>,
        vfsp: usize,
        after: &Self,
        r: Result<(), VfsError>,
    ) -> bool;

    /// Whether `root` can leave the file system as `after` and return `r`
    /// in this state.
    spec fn root_result(
        &self,
        vfsp: usize,
        after: &Self,
        r: Result<VNode<Self::Node>, VfsError>,
    ) -> bool;

    /// Whether `r` is what `fid` returns for `path` in this state.
    spec fn fid_result(&self, path: Seq<u8>, vfsp: usize, r: Option<FileId>) -> bool;

    /// Called when the file system is mounted at `path`.
    fn mount(&mut self, path: &[u8], vfsp: usize) -> (r: Result<(), VfsError>)
        requires
            old(self).wf(),
        ensures
            final(self).wf(),
            old(self).mount_result(path@, vfsp, final(self), r),
            !old(self).supports(FsOp::Mount) ==> r == Err::<(), VfsError>(VfsError::Unsupported)
                && *final(self) == *old(self),
    ;

    /// Called when the file system is unmounted.
    fn unmount(&mut self, vfsp: usize) -> (r: Result<(), VfsError>)
        requires
            old(self).wf(),
        ensures
            final(self).wf(),
            !old(self).supports(FsOp::Unmount) ==> r == Err::<(), VfsError>(VfsError::Unsupported)
                && *final(self) == *old(self),
    ;

    /// The root directory of the file system, as a node that is not open and
    /// not covered.
    fn root(&mut self, vfsp: usize) -> (r: Result<VNode<Self::Node>, VfsError>)
        requires
            old(self).wf(),
        ensures
            final(self).wf(),
            old(self).root_result(vfsp, final(self), r),
            r is Ok ==> r->Ok_0.fresh(vfsp),
    ;

    /// Usage figures.
    fn statfs(&mut self, vfsp: usize) -> (r: Result<StatFs, VfsError>)
        requires
            old(self).wf(),
        ensures
            final(self).wf(),
            !old(self).supports(FsOp::StatFs) ==> r is Err && r->Err_0 == VfsError::Unsupported
                && *final(self) == *old(self),
    ;

    /// Writes back what is pending.
    fn sync(&mut self, vfsp: usize) -> (r: Result<(), VfsError>)
        requires
            old(self).wf(),
        ensures
            final(self).wf(),
            !old(self).supports(FsOp::Sync) ==> r == Err::<(), VfsError>(VfsError::Unsupported)
                && *final(self) == *old(self),
    ;

    /// The backend's identifier of the file at `path`. A backend without
    /// identifiers has none for any path.
    fn fid(&mut self, path: &[u8], vfsp: usize) -> (r: Option<FileId>)
        requires
            old(self).wf(),
        ensures
            final(self).wf(),
            old(self).fid_result(path@, vfsp, r),
            !old(self).supports(FsOp::Fid) ==> r is None && *final(self) == *old(self),
    ;

    /// The node that the identifier `fid` names.
    fn vget(&mut self, fid: FileId, vfsp: usize) -> (r: Result<VNode<Self::Node>, VfsError>)
        requires
            old(self).wf(),
        ensures
            final(self).wf(),
            r is Ok ==> r->Ok_0.fresh(vfsp),
            !old(self).supports(FsOp::VGet) ==> r is Err && r->Err_0 == VfsError::Unsupported
                && *final(self) == *old(self),
    ;
}

/// The operations on one file or directory of a backend `F`.
///
/// The backend's per-node data implements this trait; `fs` is the file
/// system that the node belongs to.
///
/// An operation that a backend does not implement fails with `Unsupported`
/// and changes nothing. What the others return is the backend's to say, in
/// the `_result` predicates and in `spec_len`.
pub trait VNodeOperations<F: FsOps<Node = Self>>: Sized {
    /// Whether the backend implements `op` for this node.
    spec fn supports(&self, op: VNodeOp) -> bool;

    /// The length of the file in bytes.
    spec fn spec_len(&self) -> usize;

    /// Whether `r` is what `open` returns in this state.
    spec fn open_result(&self, fs: &F, f: u32, c: UserCred, r: Result<(), VfsError>) -> bool;

    /// Whether `r` is what `close` returns in this state.
    spec fn close_result(&self, fs: &F, f: u32, c: UserCred, r: Result<(), VfsError>) -> bool;

    /// Whether `r` is what `read` returns in this state.
    spec fn read_result(
        &self,
        fs: &F,
        count: usize,
        offset: usize,
        r: Result<Seq<u8>, VfsError>,
    ) -> bool;

    /// Whether `r` is what `lookup` returns in this state.
    spec fn lookup_result(
        &self,
        fs: &F,
        nm: Seq<u8>,
        vfsp: usize,
        r: Result<VNode<Self>, VfsError>,
    ) -> bool;

    /// Called when the node goes from closed to open.
    fn open(&mut self, fs: &mut F, f: u32, c: UserCred) -> (r: Result<(), VfsError>)
        requires
            old(fs).wf(),
        ensures
            final(fs).wf(),
            old(self).open_result(old(fs), f, c, r),
    ;

    /// Called when the node goes from open to closed.
    fn close(&mut self, fs: &mut F, f: u32, c: UserCred) -> (r: Result<(), VfsError>)
        requires
            old(fs).wf(),
        ensures
            final(fs).wf(),
            old(self).close_result(old(fs), f, c, r),
    ;

    /// Reads `count` bytes at `offset`.
    fn read(&mut self, fs: &mut F, count: usize, offset: usize, f: u32, c: UserCred) -> (r: Result<
        Vec<u8>,
        VfsError,
    >)
        requires
            old(fs).wf(),
        ensures
            final(fs).wf(),
            old(self).read_result(old(fs), count, offset, view_bytes(r)),
    ;

    /// Writes `buf` at `offset`.
    fn write(&mut self, fs: &mut F, offset: usize, buf: &[u8], f: u32, c: UserCred) -> (r: Result<
        (),
        VfsError,
    >)
        requires
            old(fs).wf(),
        ensures
            final(fs).wf(),
            !old(self).supports(VNodeOp::Write) ==> r == Err::<(), VfsError>(VfsError::Unsupported)
                && *final(self) == *old(self) && *final(fs) == *old(fs),
    ;

    /// Performs the device command `com` on the data at address `d`.
    fn ioctl(&mut self, fs: &mut F, com: u32, d: usize, f: u32, c: UserCred) -> (r: Result<
        (),
        VfsError,
    >)
        requires
            old(fs).wf(),
        ensures
            final(fs).wf(),
            !old(self).supports(VNodeOp::Ioctl) ==> r == Err::<(), VfsError>(VfsError::Unsupported)
                && *final(self) == *old(self) && *final(fs) == *old(fs),
    ;

    /// The file's attributes.
    fn getattr(&mut self, fs: &mut F, c: UserCred) -> (r: Result<VAttr, VfsError>)
        requires
            old(fs).wf(),
        ensures
            final(fs).wf(),
            !old(self).supports(VNodeOp::GetAttr) ==> r == Err::<VAttr, VfsError>(
                VfsError::Unsupported,
            ) && *final(self) == *old(self) && *final(fs) == *old(fs),
    ;

    /// Sets the file's attributes.
    fn setattr(&mut self, fs: &mut F, va: VAttr, c: UserCred) -> (r: Result<(), VfsError>)
        requires
            old(fs).wf(),
        ensures
            final(fs).wf(),
            !old(self).supports(VNodeOp::SetAttr) ==> r == Err::<(), VfsError>(
                VfsError::Unsupported,
            ) && *final(self) == *old(self) && *final(fs) == *old(fs),
    ;

    /// Checks that the credentials allow the access mode `m`.
    fn access(&mut self, fs: &mut F, m: u32, c: UserCred) -> (r: Result<(), VfsError>)
        requires
            old(fs).wf(),
        ensures
            final(fs).wf(),
            !old(self).supports(VNodeOp::Access) ==> r == Err::<(), VfsError>(VfsError::Unsupported)
                && *final(self) == *old(self) && *final(fs) == *old(fs),
    ;

    /// Looks `nm` up in this directory. The node that comes back is not open
    /// and not covered, and belongs to the mount `vfsp`.
    fn lookup(&mut self, fs: &mut F, nm: &[u8], c: UserCred, vfsp: usize) -> (r: Result<
        VNode<Self>,
        VfsError,
    >)
        requires
            old(fs).wf(),
        ensures
            final(fs).wf(),
            old(self).lookup_result(old(fs), nm@, vfsp, r),
            r is Ok ==> r->Ok_0.fresh(vfsp),
    ;

    /// Creates the file `nm` in this directory.
    fn create(
        &mut self,
        fs: &mut F,
        nm: &[u8],
        va: VAttr,
        e: u32,
        m: u32,
        c: UserCred,
        vfsp: usize,
    ) -> (r: Result<VNode<Self>, VfsError>)
        requires
            old(fs).wf(),
        ensures
            final(fs).wf(),
            r is Ok ==> r->Ok_0.fresh(vfsp),
            !old(self).supports(VNodeOp::Create) ==> r is Err && r->Err_0 == VfsError::Unsupported
                && *final(self) == *old(self) && *final(fs) == *old(fs),
    ;

    /// Links this file into the directory `target_dir` as `target_name`.
    fn link(&mut self, fs: &mut F, target_dir: &Self, target_name: &[u8], c: UserCred) -> (r:
        Result<(), VfsError>)
        requires
            old(fs).wf(),
        ensures
            final(fs).wf(),
            !old(self).supports(VNodeOp::Link) ==> r == Err::<(), VfsError>(VfsError::Unsupported)
                && *final(self) == *old(self) && *final(fs) == *old(fs),
    ;

    /// Moves the entry `nm` of this directory to `target_dir` as
    /// `target_name`.
    fn rename(
        &mut self,
        fs: &mut F,
        nm: &[u8],
        target_dir: &Self,
        target_name: &[u8],
        c: UserCred,
    ) -> (r: Result<(), VfsError>)
        requires
            old(fs).wf(),
        ensures
            final(fs).wf(),
            !old(self).supports(VNodeOp::Rename) ==> r == Err::<(), VfsError>(VfsError::Unsupported)
                && *final(self) == *old(self) && *final(fs) == *old(fs),
    ;

    /// Creates the directory `nm` in this directory.
    fn mkdir(&mut self, fs: &mut F, nm: &[u8], va: VAttr, c: UserCred, vfsp: usize) -> (r: Result<
        VNode<Self>,
        VfsError,
    >)
        requires
            old(fs).wf(),
        ensures
            final(fs).wf(),
            r is Ok ==> r->Ok_0.fresh(vfsp),
            !old(self).supports(VNodeOp::Mkdir) ==> r is Err && r->Err_0 == VfsError::Unsupported
                && *final(self) == *old(self) && *final(fs) == *old(fs),
    ;

    /// Reads directory entries into the transfer `uiop`.
    fn readdir(&mut self, fs: &mut F, uiop: &UIO, c: UserCred) -> (r: Result<(), VfsError>)
        requires
            old(fs).wf(),
        ensures
            final(fs).wf(),
            !old(self).supports(VNodeOp::ReadDir) ==> r == Err::<(), VfsError>(
                VfsError::Unsupported,
            ) && *final(self) == *old(self) && *final(fs) == *old(fs),
    ;

    /// Creates the symbolic link `link_name` to `target_name` in this
    /// directory.
    fn symlink(
        &mut self,
        fs: &mut F,
        link_name: &[u8],
        va: VAttr,
        target_name: &[u8],
        c: UserCred,
    ) -> (r: Result<(), VfsError>)
        requires
            old(fs).wf(),
        ensures
            final(fs).wf(),
            !old(self).supports(VNodeOp::Symlink) ==> r == Err::<(), VfsError>(
                VfsError::Unsupported,
            ) && *final(self) == *old(self) && *final(fs) == *old(fs),
    ;

    /// Reads the target of this symbolic link into the transfer `uiop`.
    fn readlink(&mut self, fs: &mut F, uiop: &UIO, c: UserCred) -> (r: Result<(), VfsError>)
        requires
            old(fs).wf(),
        ensures
            final(fs).wf(),
            !old(self).supports(VNodeOp::ReadLink) ==> r == Err::<(), VfsError>(
                VfsError::Unsupported,
            ) && *final(self) == *old(self) && *final(fs) == *old(fs),
    ;

    /// Writes back what is pending for this file.
    fn fsync(&mut self, fs: &mut F, c: UserCred) -> (r: Result<(), VfsError>)
        requires
            old(fs).wf(),
        ensures
            final(fs).wf(),
            !old(self).supports(VNodeOp::Fsync) ==> r == Err::<(), VfsError>(VfsError::Unsupported)
                && *final(self) == *old(self) && *final(fs) == *old(fs),
    ;

    /// The length of the file in bytes.
    fn len(&self) -> (n: usize)
        ensures
            n == self.spec_len(),
    ;
}

impl<N> VNode<N> {
    /// The node that `new` makes.
    pub open spec fn spec_new(inode: N, file_typ: VNodeType, parent_vfs: usize) -> Self {
        VNode { flags: 0, ref_count: 0, inode, vfs_mounted_here: None, parent_vfs, file_typ }
    }

    /// Whether the node is as a backend hands it out: not open, not covered,
    /// and belonging to the mount `vfsp`.
    pub open spec fn fresh(&self, vfsp: usize) -> bool {
        self.ref_count == 0 && self.vfs_mounted_here is None && self.parent_vfs == vfsp
    }

    /// Whether two nodes differ in nothing but the backend's data.
    pub open spec fn same_handle(&self, other: &Self) -> bool {
        &&& self.flags == other.flags
        &&& self.ref_count == other.ref_count
        &&& self.vfs_mounted_here == other.vfs_mounted_here
        &&& self.parent_vfs == other.parent_vfs
        &&& self.file_typ == other.file_typ
    }

    /// A node for the backend data `inode`: not open and not covered.
    pub fn new(inode: N, file_typ: VNodeType, parent_vfs: usize) -> (r: Self)
        ensures
            r == Self::spec_new(inode, file_typ, parent_vfs),
            r.fresh(parent_vfs),
    {
        Self { flags: 0, ref_count: 0, inode, vfs_mounted_here: None, parent_vfs, file_typ }
    }

    /// The node's own handle: the mount it belongs to.
    pub fn as_ptr(&self) -> (r: usize)
        ensures
            r == self.parent_vfs,
    {
        self.parent_vfs
    }

    /// Tells the backend that the node is opened.
    pub fn open<F>(&mut self, fs: &mut F, f: u32, c: UserCred) -> (r: Result<(), VfsError>) where
        F: FsOps<Node = N>,
        N: VNodeOperations<F>,

        requires
            old(fs).wf(),
        ensures
            final(fs).wf(),
            final(self).same_handle(old(self)),
            old(self).inode.open_result(old(fs), f, c, r),
    {
        self.inode.open(fs, f, c)
    }

    /// Tells the backend that the node is closed.
    pub fn close<F>(&mut self, fs: &mut F, f: u32, c: UserCred) -> (r: Result<(), VfsError>) where
        F: FsOps<Node = N>,
        N: VNodeOperations<F>,

        requires
            old(fs).wf(),
        ensures
            final(fs).wf(),
            final(self).same_handle(old(self)),
            old(self).inode.close_result(old(fs), f, c, r),
    {
        self.inode.close(fs, f, c)
    }

    /// Reads `count` bytes at `offset`.
    ///
    /// A read that does not lie inside the file fails with `IoFailure`
    /// before the backend is asked.
    pub fn read<F>(&mut self, fs: &mut F, count: usize, offset: usize, f: u32, c: UserCred) -> (r:
        Result<Vec<u8>, VfsError>) where F: FsOps<Node = N>, N: VNodeOperations<F>
        requires
            old(fs).wf(),
        ensures
            final(fs).wf(),
            final(self).same_handle(old(self)),
            read_in_range(old(self).inode.spec_len(), count, offset) ==> old(
                self,
            ).inode.read_result(old(fs), count, offset, view_bytes(r)),
            !read_in_range(old(self).inode.spec_len(), count, offset) ==> r is Err && r->Err_0
                == VfsError::IoFailure && *final(self) == *old(self) && *final(fs) == *old(fs),
    {
        let len = self.len();
        if offset >= len || count > len || count > len - offset {
            return Err(VfsError::IoFailure);
        }
        self.inode.read(fs, count, offset, f, c)
    }

    /// Writes `buf` at `offset`.
    pub fn write<F>(&mut self, fs: &mut F, offset: usize, buf: &[u8], f: u32, c: UserCred) -> (r:
        Result<(), VfsError>) where F: FsOps<Node = N>, N: VNodeOperations<F>
        requires
            old(fs).wf(),
        ensures
            final(fs).wf(),
            final(self).same_handle(old(self)),
            !old(self).inode.supports(VNodeOp::Write) ==> r == Err::<(), VfsError>(
                VfsError::Unsupported,
            ) && *final(self) == *old(self) && *final(fs) == *old(fs),
    {
        self.inode.write(fs, offset, buf, f, c)
    }

    /// Performs the device command `com` on the data at address `d`.
    pub fn ioctl<F>(&mut self, fs: &mut F, com: u32, d: usize, f: u32, c: UserCred) -> (r: Result<
        (),
        VfsError,
    >) where F: FsOps<Node = N>, N: VNodeOperations<F>
        requires
            old(fs).wf(),
        ensures
            final(fs).wf(),
            final(self).same_handle(old(self)),
            !old(self).inode.supports(VNodeOp::Ioctl) ==> r == Err::<(), VfsError>(
                VfsError::Unsupported,
            ) && *final(self) == *old(self) && *final(fs) == *old(fs),
    {
        self.inode.ioctl(fs, com, d, f, c)
    }

    /// The file's attributes.
    pub fn getattr<F>(&mut self, fs: &mut F, c: UserCred) -> (r: Result<VAttr, VfsError>) where
        F: FsOps<Node = N>,
        N: VNodeOperations<F>,

        requires
            old(fs).wf(),
        ensures
            final(fs).wf(),
            final(self).same_handle(old(self)),
            !old(self).inode.supports(VNodeOp::GetAttr) ==> r == Err::<VAttr, VfsError>(
                VfsError::Unsupported,
            ) && *final(self) == *old(self) && *final(fs) == *old(fs),
    {
        self.inode.getattr(fs, c)
    }

    /// Sets the file's attributes.
    pub fn setattr<F>(&mut self, fs: &mut F, va: VAttr, c: UserCred) -> (r: Result<
        (),
        VfsError,
    >) where F: FsOps<Node = N>, N: VNodeOperations<F>
        requires
            old(fs).wf(),
        ensures
            final(fs).wf(),
            final(self).same_handle(old(self)),
            !old(self).inode.supports(VNodeOp::SetAttr) ==> r == Err::<(), VfsError>(
                VfsError::Unsupported,
            ) && *final(self) == *old(self) && *final(fs) == *old(fs),
    {
        self.inode.setattr(fs, va, c)
    }

    /// Checks that the credentials allow the access mode `m`.
    pub fn access<F>(&mut self, fs: &mut F, m: u32, c: UserCred) -> (r: Result<(), VfsError>) where
        F: FsOps<Node = N>,
        N: VNodeOperations<F>,

        requires
            old(fs).wf(),
        ensures
            final(fs).wf(),
            final(self).same_handle(old(self)),
            !old(self).inode.supports(VNodeOp::Access) ==> r == Err::<(), VfsError>(
                VfsError::Unsupported,
            ) && *final(self) == *old(self) && *final(fs) == *old(fs),
    {
        self.inode.access(fs, m, c)
    }

    /// Looks `nm` up in this directory. The node found belongs to the mount
    /// that this node belongs to.
    pub fn lookup<F>(&mut self, fs: &mut F, nm: &[u8], c: UserCred) -> (r: Result<
        VNode<N>,
        VfsError,
    >) where F: FsOps<Node = N>, N: VNodeOperations<F>
        requires
            old(fs).wf(),
        ensures
            final(fs).wf(),
            final(self).same_handle(old(self)),
            old(self).inode.lookup_result(old(fs), nm@, old(self).parent_vfs, r),
            r is Ok ==> r->Ok_0.fresh(old(self).parent_vfs),
    {
        self.inode.lookup(fs, nm, c, self.parent_vfs)
    }

    /// Creates the file `nm` in this directory.
    pub fn create<F>(
        &mut self,
        fs: &mut F,
        nm: &[u8],
        va: VAttr,
        e: u32,
        m: u32,
        c: UserCred,
    ) -> (r: Result<VNode<N>, VfsError>) where F: FsOps<Node = N>, N: VNodeOperations<F>
        requires
            old(fs).wf(),
        ensures
            final(fs).wf(),
            final(self).same_handle(old(self)),
            r is Ok ==> r->Ok_0.fresh(old(self).parent_vfs),
            !old(self).inode.supports(VNodeOp::Create) ==> r is Err && r->Err_0
                == VfsError::Unsupported && *final(self) == *old(self) && *final(fs) == *old(fs),
    {
        self.inode.create(fs, nm, va, e, m, c, self.parent_vfs)
    }

    /// Links this file into the directory `target_dir` as `target_name`.
    pub fn link<F>(&mut self, fs: &mut F, target_dir: &VNode<N>, target_name: &[u8], c: UserCred) -> (r:
        Result<(), VfsError>) where F: FsOps<Node = N>, N: VNodeOperations<F>
        requires
            old(fs).wf(),
        ensures
            final(fs).wf(),
            final(self).same_handle(old(self)),
            !old(self).inode.supports(VNodeOp::Link) ==> r == Err::<(), VfsError>(
                VfsError::Unsupported,
            ) && *final(self) == *old(self) && *final(fs) == *old(fs),
    {
        self.inode.link(fs, &target_dir.inode, target_name, c)
    }

    /// Moves the entry `nm` of this directory to `target_dir` as
    /// `target_name`.
    pub fn rename<F>(
        &mut self,
        fs: &mut F,
        nm: &[u8],
        target_dir: &VNode<N>,
        target_name: &[u8],
        c: UserCred,
    ) -> (r: Result<(), VfsError>) where F: FsOps<Node = N>, N: VNodeOperations<F>
        requires
            old(fs).wf(),
        ensures
            final(fs).wf(),
            final(self).same_handle(old(self)),
            !old(self).inode.supports(VNodeOp::Rename) ==> r == Err::<(), VfsError>(
                VfsError::Unsupported,
            ) && *final(self) == *old(self) && *final(fs) == *old(fs),
    {
        self.inode.rename(fs, nm, &target_dir.inode, target_name, c)
    }

    /// Creates the directory `nm` in this directory.
    pub fn mkdir<F>(&mut self, fs: &mut F, nm: &[u8], va: VAttr, c: UserCred) -> (r: Result<
        VNode<N>,
        VfsError,
    >) where F: FsOps<Node = N>, N: VNodeOperations<F>
        requires
            old(fs).wf(),
        ensures
            final(fs).wf(),
            final(self).same_handle(old(self)),
            r is Ok ==> r->Ok_0.fresh(old(self).parent_vfs),
            !old(self).inode.supports(VNodeOp::Mkdir) ==> r is Err && r->Err_0
                == VfsError::Unsupported && *final(self) == *old(self) && *final(fs) == *old(fs),
    {
        self.inode.mkdir(fs, nm, va, c, self.parent_vfs)
    }

    /// Reads directory entries into the transfer `uiop`.
    pub fn readdir<F>(&mut self, fs: &mut F, uiop: &UIO, c: UserCred) -> (r: Result<
        (),
        VfsError,
    >) where F: FsOps<Node = N>, N: VNodeOperations<F>
        requires
            old(fs).wf(),
        ensures
            final(fs).wf(),
            final(self).same_handle(old(self)),
            !old(self).inode.supports(VNodeOp::ReadDir) ==> r == Err::<(), VfsError>(
                VfsError::Unsupported,
            ) && *final(self) == *old(self) && *final(fs) == *old(fs),
    {
        self.inode.readdir(fs, uiop, c)
    }

    /// Creates the symbolic link `link_name` to `target_name` in this
    /// directory.
    pub fn symlink<F>(
        &mut self,
        fs: &mut F,
        link_name: &[u8],
        va: VAttr,
        target_name: &[u8],
        c: UserCred,
    ) -> (r: Result<(), VfsError>) where F: FsOps<Node = N>, N: VNodeOperations<F>
        requires
            old(fs).wf(),
        ensures
            final(fs).wf(),
            final(self).same_handle(old(self)),
            !old(self).inode.supports(VNodeOp::Symlink) ==> r == Err::<(), VfsError>(
                VfsError::Unsupported,
            ) && *final(self) == *old(self) && *final(fs) == *old(fs),
    {
        self.inode.symlink(fs, link_name, va, target_name, c)
    }

    /// Reads the target of this symbolic link into the transfer `uiop`.
    pub fn readlink<F>(&mut self, fs: &mut F, uiop: &UIO, c: UserCred) -> (r: Result<
        (),
        VfsError,
    >) where F: FsOps<Node = N>, N: VNodeOperations<F>
        requires
            old(fs).wf(),
        ensures
            final(fs).wf(),
            final(self).same_handle(old(self)),
            !old(self).inode.supports(VNodeOp::ReadLink) ==> r == Err::<(), VfsError>(
                VfsError::Unsupported,
            ) && *final(self) == *old(self) && *final(fs) == *old(fs),
    {
        self.inode.readlink(fs, uiop, c)
    }

    /// Writes back what is pending for this file.
    pub fn fsync<F>(&mut self, fs: &mut F, c: UserCred) -> (r: Result<(), VfsError>) where
        F: FsOps<Node = N>,
        N: VNodeOperations<F>,

        requires
            old(fs).wf(),
        ensures
            final(fs).wf(),
            final(self).same_handle(old(self)),
            !old(self).inode.supports(VNodeOp::Fsync) ==> r == Err::<(), VfsError>(
                VfsError::Unsupported,
            ) && *final(self) == *old(self) && *final(fs) == *old(fs),
    {
        self.inode.fsync(fs, c)
    }

    /// The length of the file in bytes.
    pub fn len<F>(&self) -> (n: usize) where F: FsOps<Node = N>, N: VNodeOperations<F>
        ensures
            n == self.inode.spec_len(),
    {
        self.inode.len()
    }
}

/// One mounted file system.
///
/// A slot of the mount table that holds no backend is free: what was mounted
/// there has been removed.
pub struct Vfs<F> {
    /// The normalized path that the file system is mounted at.
    pub mount_point: Option<Vec<u8>>,
    /// The backend.
    pub fs: Option<F>,
    /// The cache entry that the mount covers; none for the root mount.
    pub vnode_covered: Option<usize>,
    pub flags: u32,
    pub block_size: u32,
    /// The mount's handle: its place in the mount table.
    pub handle: usize,
}

impl<F: FsOps> Vfs<F> {
    /// Whether a file system is mounted in this slot.
    pub open spec fn live(&self) -> bool {
        self.fs is Some
    }

    /// The path that the file system is mounted at.
    pub open spec fn path(&self) -> Seq<u8> {
        match self.mount_point {
            Some(p) => p@,
            None => Seq::empty(),
        }
    }

    /// A mount is well formed when its backend is, and a free slot when it
    /// holds nothing.
    pub open spec fn wf(&self) -> bool {
        match self.fs {
            Some(fs) => fs.wf() && self.mount_point is Some,
            None => self.mount_point is None && self.vnode_covered is None,
        }
    }

    /// Whether `other` is this mount but for the backend's own state.
    pub open spec fn same_mount(&self, other: &Self) -> bool {
        &&& self.mount_point == other.mount_point
        &&& self.fs is Some == other.fs is Some
        &&& self.vnode_covered == other.vnode_covered
        &&& self.flags == other.flags
        &&& self.block_size == other.block_size
        &&& self.handle == other.handle
    }

    /// A free slot.
    pub fn null() -> (r: Self)
        ensures
            !r.live(),
            r.wf(),
            r.handle == 0,
    {
        Self {
            mount_point: None,
            fs: None,
            vnode_covered: None,
            flags: 0,
            block_size: 0,
            handle: 0,
        }
    }

    /// A mount of `fs` at `mount_point` that covers nothing yet.
    pub fn new(fs: F, mount_point: &[u8]) -> (r: Self)
        requires
            fs.wf(),
        ensures
            r.wf(),
            r.live(),
            r.fs == Some(fs),
            r.path() == mount_point@,
            r.vnode_covered is None,
            r.handle == 0,
            r.flags == 0,
            r.block_size == 0,
    {
        let mut path: Vec<u8> = Vec::new();
        path.extend_from_slice(mount_point);
        assert(path@ =~= mount_point@);
        Self {
            mount_point: Some(path),
            fs: Some(fs),
            vnode_covered: None,
            flags: 0,
            block_size: 0,
            handle: 0,
        }
    }

    /// The mount's handle.
    pub fn as_ptr(&self) -> (r: usize)
        ensures
            r == self.handle,
    {
        self.handle
    }

    /// Tells the backend that it is mounted at `path`. A free slot has no
    /// backend to tell: `Unsupported`.
    pub fn mount(&mut self, path: &[u8]) -> (r: Result<(), VfsError>)
        requires
            old(self).wf(),
        ensures
            final(self).wf(),
            final(self).same_mount(old(self)),
            match old(self).fs {
                Some(fs) => final(self).fs is Some && fs.mount_result(
                    path@,
                    old(self).handle,
                    &final(self).fs->Some_0,
                    r,
                ),
                None => r == Err::<(), VfsError>(VfsError::Unsupported) && *final(self) == *old(
                    self,
                ),
            },
    {
        let vfsp = self.handle;
        match &mut self.fs {
            Some(fs) => fs.mount(path, vfsp),
            None => Err(VfsError::Unsupported),
        }
    }

    /// Tells the backend that it is unmounted.
    pub fn unmount(&mut self) -> (r: Result<(), VfsError>)
        requires
            old(self).wf(),
        ensures
            final(self).wf(),
            final(self).same_mount(old(self)),
            match old(self).fs {
                Some(fs) => !fs.supports(FsOp::Unmount) ==> r == Err::<(), VfsError>(
                    VfsError::Unsupported,
                ) && final(self).fs == old(self).fs,
                None => r == Err::<(), VfsError>(VfsError::Unsupported),
            },
    {
        let vfsp = self.handle;
        match &mut self.fs {
            Some(fs) => fs.unmount(vfsp),
            None => Err(VfsError::Unsupported),
        }
    }

    /// The root directory of the mounted file system.
    pub fn root(&mut self) -> (r: Result<VNode<F::Node>, VfsError>)
        requires
            old(self).wf(),
        ensures
            final(self).wf(),
            final(self).same_mount(old(self)),
            r is Ok ==> r->Ok_0.fresh(old(self).handle),
            match old(self).fs {
                Some(fs) => final(self).fs is Some && fs.root_result(
                    old(self).handle,
                    &final(self).fs->Some_0,
                    r,
                ),
                None => r is Err && r->Err_0 == VfsError::Unsupported && *final(self) == *old(
                    self,
                ),
            },
    {
        let vfsp = self.handle;
        match &mut self.fs {
            Some(fs) => fs.root(vfsp),
            None => Err(VfsError::Unsupported),
        }
    }

    /// Usage figures of the mounted file system.
    pub fn statfs(&mut self) -> (r: Result<StatFs, VfsError>)
        requires
            old(self).wf(),
        ensures
            final(self).wf(),
            final(self).same_mount(old(self)),
            match old(self).fs {
                Some(fs) => !fs.supports(FsOp::StatFs) ==> r is Err && r->Err_0
                    == VfsError::Unsupported && final(self).fs == old(self).fs,
                None => r is Err && r->Err_0 == VfsError::Unsupported,
            },
    {
        let vfsp = self.handle;
        match &mut self.fs {
            Some(fs) => fs.statfs(vfsp),
            None => Err(VfsError::Unsupported),
        }
    }

    /// Writes back what is pending.
    pub fn sync(&mut self) -> (r: Result<(), VfsError>)
        requires
            old(self).wf(),
        ensures
            final(self).wf(),
            final(self).same_mount(old(self)),
            match old(self).fs {
                Some(fs) => !fs.supports(FsOp::Sync) ==> r == Err::<(), VfsError>(
                    VfsError::Unsupported,
                ) && final(self).fs == old(self).fs,
                None => r == Err::<(), VfsError>(VfsError::Unsupported),
            },
    {
        let vfsp = self.handle;
        match &mut self.fs {
            Some(fs) => fs.sync(vfsp),
            None => Err(VfsError::Unsupported),
        }
    }

    /// The backend's identifier of the file at `path`: what the backend
    /// answers when it is asked with this mount's handle (see
    /// [`FsOps::fid_result`]). A slot without a backend has no identifiers.
    pub fn fid(&mut self, path: &[u8]) -> (r: Option<FileId>)
        requires
            old(self).wf(),
        ensures
            final(self).wf(),
            final(self).same_mount(old(self)),
            match old(self).fs {
                Some(fs) => fs.fid_result(path@, old(self).handle, r) && (!fs.supports(FsOp::Fid)
                    ==> r is None && final(self).fs == old(self).fs),
                None => r is None && *final(self) == *old(self),
            },
    {
        let vfsp = self.handle;
        match &mut self.fs {
            Some(fs) => fs.fid(path, vfsp),
            None => None,
        }
    }

    /// The node that the identifier `fid` names.
    pub fn vget(&mut self, fid: FileId) -> (r: Result<VNode<F::Node>, VfsError>)
        requires
            old(self).wf(),
        ensures
            final(self).wf(),
            final(self).same_mount(old(self)),
            r is Ok ==> r->Ok_0.fresh(old(self).handle),
            match old(self).fs {
                Some(fs) => !fs.supports(FsOp::VGet) ==> r is Err && r->Err_0
                    == VfsError::Unsupported && final(self).fs == old(self).fs,
                None => r is Err && r->Err_0 == VfsError::Unsupported,
            },
    {
        let vfsp = self.handle;
        match &mut self.fs {
            Some(fs) => fs.vget(fid, vfsp),
            None => Err(VfsError::Unsupported),
        }
    }
}

/// The byte that separates the segments of a path.
pub const SEPARATOR: u8 = 0x2F;

/// `p` without the separators it ends in.
pub open spec fn strip_trailing(p: Seq<u8>) -> Seq<u8>
    decreases p.len(),
{
    if p.len() > 0 && p.last() == SEPARATOR {
        strip_trailing(p.drop_last())
    } else {
        p
    }
}

/// The path of the root mount: a single separator.
pub open spec fn root_path() -> Seq<u8> {
    seq![SEPARATOR]
}

/// The normalized form of the mount path `p`: `p` without trailing
/// separators, and the root path where nothing is left of it.
pub open spec fn normalize(p: Seq<u8>) -> Seq<u8> {
    if strip_trailing(p).len() == 0 {
        root_path()
    } else {
        strip_trailing(p)
    }
}

/// The segments of `p` from byte `i` on, where `cur` is what has been read
/// of the segment that byte `i` continues.
pub open spec fn split_from(p: Seq<u8>, i: int, cur: Seq<u8>) -> Seq<Seq<u8>>
    decreases p.len() - i,
{
    if i < 0 || i >= p.len() {
        if cur.len() > 0 {
            seq![cur]
        } else {
            Seq::empty()
        }
    } else if p[i] == SEPARATOR {
        if cur.len() > 0 {
            seq![cur] + split_from(p, i + 1, Seq::empty())
        } else {
            split_from(p, i + 1, Seq::empty())
        }
    } else {
        split_from(p, i + 1, cur.push(p[i]))
    }
}

/// The segments of the path `p`: its maximal runs of bytes other than the
/// separator, in order. Empty segments do not count.
pub open spec fn segments(p: Seq<u8>) -> Seq<Seq<u8>> {
    split_from(p, 0, Seq::empty())
}

/// Whether the path with the segments `outer` lies below the one with the
/// segments `inner`: it has more segments, and begins with all of `inner`'s.
pub open spec fn is_below(inner: Seq<Seq<u8>>, outer: Seq<Seq<u8>>) -> bool {
    inner.len() < outer.len() && forall|k: int| 0 <= k < inner.len() ==> inner[k] == outer[k]
}

/// The byte strings that `v` holds.
pub open spec fn views(v: Seq<Vec<u8>>) -> Seq<Seq<u8>> {
    Seq::new(v.len(), |i: int| v[i]@)
}

/// Normalizes a mount path; see [`normalize`].
pub fn normalize_path(path: &[u8]) -> (r: Vec<u8>)
    ensures
        r@ == normalize(path@),
{
    let mut end: usize = path.len();
    assert(path@.take(end as int) =~= path@);
    while end > 0 && path[end - 1] == SEPARATOR
        invariant
            end <= path.len(),
            strip_trailing(path@) == strip_trailing(path@.take(end as int)),
        decreases end,
    {
        assert(path@.take(end as int).drop_last() =~= path@.take(end - 1));
        end -= 1;
    }
    let mut out: Vec<u8> = Vec::new();
    if end == 0 {
        out.push(SEPARATOR);
        assert(out@ =~= root_path());
    } else {
        out.extend_from_slice(vstd::slice::slice_subrange(path, 0, end));
        assert(out@ =~= path@.take(end as int));
    }
    out
}

/// Splits a path into its segments; see [`segments`].
pub fn split_path(path: &[u8]) -> (r: Vec<Vec<u8>>)
    ensures
        views(r@) == segments(path@),
{
    let mut out: Vec<Vec<u8>> = Vec::new();
    let mut cur: Vec<u8> = Vec::new();
    let mut i: usize = 0;
    assert(views(out@) + split_from(path@, 0, cur@) =~= segments(path@));
    while i < path.len()
        invariant
            i <= path.len(),
            segments(path@) == views(out@) + split_from(path@, i as int, cur@),
        decreases path.len() - i,
    {
        let ghost before = views(out@);
        let ghost piece = cur@;
        if path[i] == SEPARATOR {
            if cur.len() > 0 {
                out.push(cur);
                cur = Vec::new();
                assert(views(out@) =~= before.push(piece));
                assert(before + (seq![piece] + split_from(path@, i + 1, Seq::empty()))
                    =~= before.push(piece) + split_from(path@, i + 1, Seq::empty()));
            }
            assert(cur@ =~= Seq::<u8>::empty());
        } else {
            cur.push(path[i]);
        }
        i += 1;
    }
    if cur.len() > 0 {
        let ghost before = views(out@);
        let ghost piece = cur@;
        out.push(cur);
        assert(views(out@) =~= before.push(piece));
        assert(before + seq![piece] =~= before.push(piece));
    } else {
        assert(views(out@) + Seq::<Seq<u8>>::empty() =~= views(out@));
    }
    out
}

/// Whether the segments `outer` continue the segments `inner`; see
/// [`is_below`].
pub fn segments_below(inner: &Vec<Vec<u8>>, outer: &Vec<Vec<u8>>) -> (r: bool)
    ensures
        r == is_below(views(inner@), views(outer@)),
{
    if inner.len() >= outer.len() {
        return false;
    }
    let mut k: usize = 0;
    while k < inner.len()
        invariant
            k <= inner.len() < outer.len(),
            forall|j: int| 0 <= j < k ==> views(inner@)[j] == views(outer@)[j],
        decreases inner.len() - k,
    {
        if !crate::libs::bytes::bytes_eq(inner[k].as_slice(), outer[k].as_slice()) {
            assert(views(inner@)[k as int] != views(outer@)[k as int]);
            return false;
        }
        k += 1;
    }
    true
}

/// The child that the list `children` names `name`, looking from index
/// `from` on: the first entry with that name decides.
pub open spec fn find_child(children: Seq<(Vec<u8>, usize)>, name: Seq<u8>, from: int) -> Option<
    usize,
>
    decreases children.len() - from,
{
    if from < 0 || from >= children.len() {
        None
    } else if children[from].0@ == name {
        Some(children[from].1)
    } else {
        find_child(children, name, from + 1)
    }
}

/// A child that is found is one of the list's entries.
pub proof fn lemma_find_child_is_entry(children: Seq<(Vec<u8>, usize)>, name: Seq<u8>, from: int)
    requires
        0 <= from,
        find_child(children, name, from) is Some,
    ensures
        exists|k: int|
            from <= k < children.len() && (#[trigger] children[k]).1 == find_child(
                children,
                name,
                from,
            )->Some_0,
    decreases children.len() - from,
{
    if children[from].0@ == name {
        assert(children[from].1 == find_child(children, name, from)->Some_0);
    } else {
        lemma_find_child_is_entry(children, name, from + 1);
    }
}

/// A name that is not found is the name of none of the list's entries.
pub proof fn lemma_find_child_none(children: Seq<(Vec<u8>, usize)>, name: Seq<u8>, from: int)
    requires
        0 <= from,
        find_child(children, name, from) is None,
    ensures
        forall|k: int| from <= k < children.len() ==> (#[trigger] children[k]).0@ != name,
    decreases children.len() - from,
{
    if from < children.len() {
        lemma_find_child_none(children, name, from + 1);
    }
}

/// Appending an entry changes no lookup that found something, and makes the
/// new entry the answer for its name where there was none.
pub proof fn lemma_find_child_push(
    children: Seq<(Vec<u8>, usize)>,
    entry: (Vec<u8>, usize),
    name: Seq<u8>,
    from: int,
)
    requires
        0 <= from <= children.len(),
    ensures
        find_child(children.push(entry), name, from) == match find_child(children, name, from) {
            Some(c) => Some(c),
            None => if entry.0@ == name {
                Some(entry.1)
            } else {
                None
            },
        },
    decreases children.len() - from,
{
    let longer = children.push(entry);
    if from < children.len() {
        assert(longer[from] == children[from]);
        if children[from].0@ != name {
            lemma_find_child_push(children, entry, name, from + 1);
        }
    } else {
        assert(longer[from] == entry);
        assert(find_child(longer, name, from + 1) is None);
        assert(find_child(children, name, from) is None);
    }
}

/// An open file: the cache entry it was opened on, and the credentials it
/// was opened with.
#[derive(Debug)]
pub struct File {
    pub descriptor: usize,
    pub user_cred: UserCred,
}

/// An entry of the path-resolution cache: one resolved path segment.
pub struct TreeNode<N> {
    /// The node that the segment resolved to.
    pub vnode: VNode<N>,
    /// The entry of the directory that the segment was looked up in.
    pub parent: Option<usize>,
    /// The names resolved in this directory so far, each with its entry.
    pub children: Vec<(Vec<u8>, usize)>,
    /// The entry's own handle: its place in the cache.
    pub index: usize,
}

impl<N> TreeNode<N> {
    /// The cached child of this entry under `name`.
    pub open spec fn child(&self, name: Seq<u8>) -> Option<usize> {
        find_child(self.children@, name, 0)
    }

    /// Whether `other` is this entry but for the backend's own data.
    pub open spec fn same_entry(&self, other: &Self) -> bool {
        &&& self.vnode.same_handle(&other.vnode)
        &&& self.parent == other.parent
        &&& self.children == other.children
        &&& self.index == other.index
    }

    /// An entry for `vnode` with no parent and no children.
    pub fn new(vnode: VNode<N>) -> (r: Self)
        ensures
            r.vnode == vnode,
            r.parent is None,
            r.children@.len() == 0,
            r.index == 0,
    {
        Self { vnode, parent: None, children: Vec::new(), index: 0 }
    }

    /// The entry's handle.
    pub fn as_ptr(&self) -> (r: usize)
        ensures
            r == self.index,
    {
        self.index
    }

    /// The entry's node, to change.
    pub fn get_vnode_mut(&mut self) -> (r: &mut VNode<N>)
        ensures
            *r == old(self).vnode,
            final(self).vnode == *final(r),
            final(self).parent == old(self).parent,
            final(self).children == old(self).children,
            final(self).index == old(self).index,
    {
        &mut self.vnode
    }

    /// The entry's node.
    pub fn get_vnode(&self) -> (r: &VNode<N>)
        ensures
            *r == self.vnode,
    {
        &self.vnode
    }

    /// The cached child under `name`, if the name has been resolved here
    /// before.
    pub fn cached(&self, name: &[u8]) -> (r: Option<usize>)
        ensures
            r == self.child(name@),
    {
        let mut k: usize = 0;
        while k < self.children.len()
            invariant
                k <= self.children.len(),
                self.child(name@) == find_child(self.children@, name@, k as int),
            decreases self.children.len() - k,
        {
            if crate::libs::bytes::bytes_eq(self.children[k].0.as_slice(), name) {
                return Some(self.children[k].1);
            }
            k += 1;
        }
        None
    }

    /// Reads from the entry's node, with the credentials of the superuser.
    pub fn read<F>(&mut self, fs: &mut F, count: usize, offset: usize, f: u32) -> (r: Result<
        Vec<u8>,
        VfsError,
    >) where F: FsOps<Node = N>, N: VNodeOperations<F>
        requires
            old(fs).wf(),
        ensures
            final(fs).wf(),
            final(self).same_entry(old(self)),
            read_in_range(old(self).vnode.inode.spec_len(), count, offset) ==> old(
                self,
            ).vnode.inode.read_result(old(fs), count, offset, view_bytes(r)),
            !read_in_range(old(self).vnode.inode.spec_len(), count, offset) ==> r is Err
                && r->Err_0 == VfsError::IoFailure && *final(self) == *old(self) && *final(fs)
                == *old(fs),
    {
        self.vnode.read(fs, count, offset, f, UserCred { uid: 0, gid: 0 })
    }

    /// Writes to the entry's node, with the credentials of the superuser.
    pub fn write<F>(&mut self, fs: &mut F, offset: usize, buf: &[u8], f: u32) -> (r: Result<
        (),
        VfsError,
    >) where F: FsOps<Node = N>, N: VNodeOperations<F>
        requires
            old(fs).wf(),
        ensures
            final(fs).wf(),
            final(self).same_entry(old(self)),
            !old(self).vnode.inode.supports(VNodeOp::Write) ==> r == Err::<(), VfsError>(
                VfsError::Unsupported,
            ) && *final(self) == *old(self) && *final(fs) == *old(fs),
    {
        self.vnode.write(fs, offset, buf, f, UserCred { uid: 0, gid: 0 })
    }

    /// Opens the entry's node and counts the opening.
    ///
    /// The backend is told only when the node goes from closed to open; if
    /// it fails then, the node stays closed. A node that is open already is
    /// only counted once more. `IoFailure` where the count is at its limit.
    pub fn open<F>(&mut self, fs: &mut F, f: u32, c: UserCred) -> (r: Result<File, VfsError>) where
        F: FsOps<Node = N>,
        N: VNodeOperations<F>,

        requires
            old(fs).wf(),
        ensures
            final(fs).wf(),
            final(self).parent == old(self).parent,
            final(self).children == old(self).children,
            final(self).index == old(self).index,
            final(self).vnode.flags == old(self).vnode.flags,
            final(self).vnode.vfs_mounted_here == old(self).vnode.vfs_mounted_here,
            final(self).vnode.parent_vfs == old(self).vnode.parent_vfs,
            final(self).vnode.file_typ == old(self).vnode.file_typ,
            r is Ok ==> r->Ok_0.descriptor == old(self).index && r->Ok_0.user_cred == c && final(self).vnode.ref_count == old(self).vnode.ref_count + 1,
            r is Err ==> final(self).vnode.ref_count == old(self).vnode.ref_count,
            old(self).vnode.ref_count == 0 ==> old(self).vnode.inode.open_result(
                old(fs),
                f,
                c,
                match r {
                    Ok(_) => Ok(()),
                    Err(e) => Err(e),
                },
            ),
            0 < old(self).vnode.ref_count < u32::MAX ==> r is Ok && final(self).vnode.inode == old(
                self,
            ).vnode.inode && *final(fs) == *old(fs),
            old(self).vnode.ref_count == u32::MAX ==> r is Err && r->Err_0 == VfsError::IoFailure
                && *final(self) == *old(self) && *final(fs) == *old(fs),
    {
        if self.vnode.ref_count == u32::MAX {
            return Err(VfsError::IoFailure);
        }
        if self.vnode.ref_count == 0 {
            self.vnode.open(fs, f, c)?;
        }
        self.vnode.ref_count += 1;

        Ok(File::new(self.index, c))
    }

    /// Takes back one opening of the entry's node.
    ///
    /// The backend is told only when the node goes from open to closed. A
    /// node that stays open is only counted once less. `IoFailure` where the
    /// node is not open.
    pub fn close<F>(&mut self, fs: &mut F, f: u32, c: UserCred) -> (r: Result<(), VfsError>) where
        F: FsOps<Node = N>,
        N: VNodeOperations<F>,

        requires
            old(fs).wf(),
        ensures
            final(fs).wf(),
            final(self).parent == old(self).parent,
            final(self).children == old(self).children,
            final(self).index == old(self).index,
            final(self).vnode.flags == old(self).vnode.flags,
            final(self).vnode.vfs_mounted_here == old(self).vnode.vfs_mounted_here,
            final(self).vnode.parent_vfs == old(self).vnode.parent_vfs,
            final(self).vnode.file_typ == old(self).vnode.file_typ,
            old(self).vnode.ref_count == 0 ==> r == Err::<(), VfsError>(VfsError::IoFailure)
                && *final(self) == *old(self) && *final(fs) == *old(fs),
            old(self).vnode.ref_count > 0 ==> final(self).vnode.ref_count == old(
                self,
            ).vnode.ref_count - 1,
            old(self).vnode.ref_count == 1 ==> old(self).vnode.inode.close_result(
                old(fs),
                f,
                c,
                r,
            ),
            old(self).vnode.ref_count > 1 ==> r is Ok && final(self).vnode.inode == old(
                self,
            ).vnode.inode && *final(fs) == *old(fs),
    {
        if self.vnode.ref_count == 0 {
            return Err(VfsError::IoFailure);
        }
        self.vnode.ref_count -= 1;

        if self.vnode.ref_count == 0 {
            self.vnode.close(fs, f, c)
        } else {
            Ok(())
        }
    }

    /// Marks the entry as covered by the mount `m`. What was cached below
    /// the entry belongs to the directory that is now hidden, and is
    /// dropped.
    pub fn cover(&mut self, m: usize)
        ensures
            final(self).vnode.vfs_mounted_here == Some(m),
            final(self).children@.len() == 0,
            final(self).vnode.flags == old(self).vnode.flags,
            final(self).vnode.ref_count == old(self).vnode.ref_count,
            final(self).vnode.inode == old(self).vnode.inode,
            final(self).vnode.parent_vfs == old(self).vnode.parent_vfs,
            final(self).vnode.file_typ == old(self).vnode.file_typ,
            final(self).parent == old(self).parent,
            final(self).index == old(self).index,
    {
        self.vnode.vfs_mounted_here = Some(m);
        self.children = Vec::new();
    }

    /// Marks the entry as covered by no mount. What was cached below the
    /// entry belongs to the mount that is gone, and is dropped.
    pub fn uncover(&mut self)
        ensures
            final(self).vnode.vfs_mounted_here is None,
            final(self).children@.len() == 0,
            final(self).vnode.flags == old(self).vnode.flags,
            final(self).vnode.ref_count == old(self).vnode.ref_count,
            final(self).vnode.inode == old(self).vnode.inode,
            final(self).vnode.parent_vfs == old(self).vnode.parent_vfs,
            final(self).vnode.file_typ == old(self).vnode.file_typ,
            final(self).parent == old(self).parent,
            final(self).index == old(self).index,
    {
        self.vnode.vfs_mounted_here = None;
        self.children = Vec::new();
    }

    /// The length of the entry's file in bytes.
    pub fn len<F>(&self) -> (n: usize) where F: FsOps<Node = N>, N: VNodeOperations<F>
        ensures
            n == self.vnode.inode.spec_len(),
    {
        self.vnode.len::<F>()
    }
}

impl File {
    /// An open file on the cache entry `tree_node`.
    pub fn new(tree_node: usize, user_cred: UserCred) -> (r: Self)
        ensures
            r.descriptor == tree_node,
            r.user_cred == user_cred,
    {
        Self { descriptor: tree_node, user_cred }
    }
}

/// The mount table and the path-resolution cache: the state of the
/// namespace.
///
/// Mounts are kept in the order in which they were added, the root mount
/// first; a mount's handle is its place in the table. Cache entries are kept
/// in the order in which they were resolved, the root directory first; an
/// entry's handle is its place in the cache. Entries are never evicted while
/// the mounts stay as they are.
///
/// There is no hidden state: whoever owns the context owns the namespace,
/// and every change goes through a `&mut` to it, so that one caller at a
/// time works on it. A kernel that shares a context between processors or
/// with interrupt handlers keeps it behind one lock.
pub struct VfsContext<F: FsOps> {
    pub mounts: Vec<Vfs<F>>,
    pub nodes: Vec<TreeNode<F::Node>>,
}

impl<F: FsOps> VfsContext<F> where F::Node: VNodeOperations<F> {
    /// Whether a root file system is mounted.
    pub open spec fn has_root(&self) -> bool {
        self.mounts.len() > 0
    }

    /// Whether slot `m` of the mount table holds a mount.
    pub open spec fn live(&self, m: int) -> bool {
        0 <= m < self.mounts.len() && self.mounts[m].live()
    }

    /// Whether a file system is mounted at the normalized path `path`.
    pub open spec fn mounted(&self, path: Seq<u8>) -> bool {
        exists|m: int| #[trigger] self.live(m) && self.mounts[m].path() == path
    }

    /// Whether the root mount is the only mount.
    pub open spec fn only_root(&self) -> bool {
        forall|m: int| 0 < m ==> !#[trigger] self.live(m)
    }

    /// Whether the mount at `path` is busy: some other mount's path lies
    /// below it, segment by segment.
    pub open spec fn busy(&self, path: Seq<u8>) -> bool {
        exists|m: int|
            #[trigger] self.live(m) && self.mounts[m].path() != path && is_below(
                segments(path),
                segments(self.mounts[m].path()),
            )
    }

    /// What holds of slot `m` of the mount table: it knows its handle; the
    /// root mount, and no other, lies in slot 0 and covers nothing; every
    /// other mount covers a cache entry that points back at it.
    pub open spec fn mount_wf(&self, m: int) -> bool {
        let mount = self.mounts[m];
        &&& mount.wf()
        &&& mount.handle == m
        &&& mount.live() ==> {
            &&& (m == 0) == (mount.path() == root_path())
            &&& m == 0 ==> mount.vnode_covered is None
            &&& m > 0 ==> match mount.vnode_covered {
                Some(c) => 0 < c < self.nodes.len() && self.nodes[c as int].vnode.vfs_mounted_here
                    == Some(m as usize),
                None => false,
            }
        }
    }

    /// What holds of cache entry `n`: it knows its handle; its node belongs
    /// to a slot of the mount table; its children were resolved after it,
    /// and no name occurs twice among them; and if a mount covers it, the
    /// mount says so too.
    pub open spec fn node_wf(&self, n: int) -> bool {
        let node = self.nodes[n];
        &&& node.index == n
        &&& node.vnode.parent_vfs < self.mounts.len()
        &&& forall|k: int|
            0 <= k < node.children.len() ==> n < (#[trigger] node.children[k]).1
                < self.nodes.len()
        &&& forall|i: int, j: int|
            0 <= i < j < node.children.len() ==> (#[trigger] node.children[i]).0@ != (
            #[trigger] node.children[j]).0@
        &&& match node.vnode.vfs_mounted_here {
            Some(m) => m > 0 && self.live(m as int) && self.mounts[m as int].vnode_covered == Some(
                n as usize,
            ),
            None => true,
        }
    }

    /// The invariant of the namespace: there is a cache exactly when there
    /// is a root mount; every slot and every entry is well formed; and no
    /// two mounts share a path.
    pub open spec fn wf(&self) -> bool {
        &&& (self.mounts.len() == 0) == (self.nodes.len() == 0)
        &&& self.mounts.len() > 0 ==> self.mounts[0].live()
        &&& forall|m: int| 0 <= m < self.mounts.len() ==> #[trigger] self.mount_wf(m)
        &&& forall|n: int| 0 <= n < self.nodes.len() ==> #[trigger] self.node_wf(n)
        &&& forall|a: int, b: int|
            #[trigger] self.live(a) && #[trigger] self.live(b) && a != b ==> self.mounts[a].path()
                != self.mounts[b].path()
    }

    /// The cache entry that the segments `segs` lead to from the root of the
    /// cache, if all of them have been resolved before.
    pub open spec fn walk(&self, segs: Seq<Seq<u8>>) -> Option<usize>
        decreases segs.len(),
    {
        if self.nodes.len() == 0 {
            None
        } else if segs.len() == 0 {
            Some(0)
        } else {
            match self.walk(segs.drop_last()) {
                Some(p) => if p < self.nodes.len() {
                    self.nodes[p as int].child(segs.last())
                } else {
                    None
                },
                None => None,
            }
        }
    }

    /// Whether the cache has grown out of that of `old`: every name that was
    /// resolved there is resolved here, to the same entry.
    pub open spec fn grows_from(&self, old: &Self) -> bool {
        &&& old.nodes.len() <= self.nodes.len()
        &&& forall|n: int, name: Seq<u8>|
            0 <= n < old.nodes.len() && (#[trigger] old.nodes[n].child(name)) is Some
                ==> self.nodes[n].child(name) == old.nodes[n].child(name)
    }

    /// Whether the mount table is that of `old` but for the backends' own
    /// state.
    pub open spec fn same_mounts(&self, old: &Self) -> bool {
        &&& self.mounts.len() == old.mounts.len()
        &&& forall|m: int|
            0 <= m < self.mounts.len() ==> (#[trigger] self.mounts[m]).same_mount(&old.mounts[m])
    }

    /// Whether the cache is that of `old` but for the backends' own data.
    pub open spec fn same_entries(&self, old: &Self) -> bool {
        &&& self.nodes.len() == old.nodes.len()
        &&& forall|n: int|
            0 <= n < self.nodes.len() ==> (#[trigger] self.nodes[n]).same_entry(&old.nodes[n])
    }

    /// Whether this is `old` after `name` was resolved in `entry` to a new
    /// entry `id`: `id` is the next free handle, the new entry is a leaf
    /// below `entry`, `entry` lists it under `name`, and every other cached
    /// name leads where it led.
    pub open spec fn attached(&self, old: &Self, entry: usize, name: Seq<u8>, id: usize) -> bool {
        &&& id == old.nodes.len()
        &&& self.nodes.len() == old.nodes.len() + 1
        &&& self.nodes[id as int].parent == Some(entry)
        &&& self.nodes[id as int].children@.len() == 0
        &&& self.nodes[id as int].index == id
        &&& self.nodes[entry as int].child(name) == Some(id)
        &&& forall|n: int, other: Seq<u8>|
            0 <= n < old.nodes.len() && (n != entry || other != name) ==> (
            #[trigger] self.nodes[n].child(other)) == old.nodes[n].child(other)
        &&& forall|n: int|
            0 <= n < old.nodes.len() ==> (#[trigger] self.nodes[n]).vnode.same_handle(
                &old.nodes[n].vnode,
            ) && self.nodes[n].parent == old.nodes[n].parent && self.nodes[n].index
                == old.nodes[n].index
    }

    /// Whether `r` is what the backends answer when `name` is looked up in
    /// the entry `entry`.
    ///
    /// Where a mount covers the entry, the mount's root directory is asked:
    /// first the mount for its root, then the root for `name`, in the file
    /// system as asking for the root left it. Else the
    /// entry's own node is asked, in the file system it belongs to. A node
    /// whose mount is gone finds nothing.
    pub open spec fn fetched(
        &self,
        entry: usize,
        name: Seq<u8>,
        r: Result<VNode<F::Node>, VfsError>,
    ) -> bool {
        let vnode = self.nodes[entry as int].vnode;
        match vnode.vfs_mounted_here {
            Some(m) => match self.mounts[m as int].fs {
                Some(fs) => {
                    ||| exists|e: VfsError, mid: F|
                        fs.root_result(m, &mid, Err::<VNode<F::Node>, VfsError>(e)) && r == Err::<
                            VNode<F::Node>,
                            VfsError,
                        >(e)
                    ||| exists|root: VNode<F::Node>, mid: F|
                        fs.root_result(m, &mid, Ok::<VNode<F::Node>, VfsError>(root)) && mid.wf()
                            && root.inode.lookup_result(&mid, name, m, r)
                },
                None => r is Err && r->Err_0 == VfsError::NotFound,
            },
            None => match self.mounts[vnode.parent_vfs as int].fs {
                Some(fs) => vnode.inode.lookup_result(&fs, name, vnode.parent_vfs, r),
                None => r is Err && r->Err_0 == VfsError::NotFound,
            },
        }
    }

    /// Whether this is `old` after `name` was resolved in the entry `entry`,
    /// with the result `r`.
    ///
    /// A name that the entry knows is answered from the cache, and nothing
    /// changes. Else the backends are asked (see [`Self::fetched`]): what
    /// they find becomes a new entry below `entry`, and what they fail with
    /// is the error, with the cache as it was. An entry that does not exist
    /// holds nothing.
    pub open spec fn looked_up(
        &self,
        old: &Self,
        entry: usize,
        name: Seq<u8>,
        r: Result<usize, VfsError>,
    ) -> bool {
        &&& self.wf()
        &&& self.same_mounts(old)
        &&& self.grows_from(old)
        &&& if entry >= old.nodes.len() {
            r == Err::<usize, VfsError>(VfsError::NotFound) && *self == *old
        } else {
            match old.nodes[entry as int].child(name) {
                Some(c) => r == Ok::<usize, VfsError>(c) && *self == *old,
                None => match r {
                    Ok(id) => self.attached(old, entry, name, id) && old.fetched(
                        entry,
                        name,
                        Ok::<VNode<F::Node>, VfsError>(self.nodes[id as int].vnode),
                    ),
                    Err(e) => self.same_entries(old) && old.fetched(
                        entry,
                        name,
                        Err::<VNode<F::Node>, VfsError>(e),
                    ),
                },
            }
        }
    }

    /// Whether `states` and `entries` record how the segments `segs` were
    /// resolved one after the other from the root of the cache of `start`,
    /// all of them with success: the state that each step left, and the
    /// entry that it led to, in which the next segment was resolved; see
    /// [`Self::looked_up`].
    pub open spec fn steps(
        start: &Self,
        segs: Seq<Seq<u8>>,
        states: Seq<VfsContext<F>>,
        entries: Seq<usize>,
    ) -> bool {
        &&& states.len() == segs.len() + 1
        &&& entries.len() == segs.len() + 1
        &&& states[0] == *start
        &&& entries[0] == 0
        &&& forall|i: int|
            1 <= i <= segs.len() ==> (#[trigger] states[i]).looked_up(
                &states[i - 1],
                entries[i - 1],
                segs[i - 1],
                Ok::<usize, VfsError>(entries[i]),
            )
    }

    /// Whether this is `start` after the segments `segs` were resolved one
    /// after the other from the root of the cache, each in the entry that
    /// the one before it led to, and all of them with success, the last one
    /// leading to the entry `cur`; see [`Self::steps`].
    pub open spec fn reached(&self, start: &Self, segs: Seq<Seq<u8>>, cur: usize) -> bool {
        exists|states: Seq<VfsContext<F>>, entries: Seq<usize>|
            #![trigger Self::steps(start, segs, states, entries)]
            Self::steps(start, segs, states, entries) && states.last() == *self && entries.last()
                == cur
    }

    /// Whether this is `old` after the path with the segments `segs` was
    /// resolved, with the result `r`.
    ///
    /// Without a root mount nothing resolves, and nothing changes. Else the
    /// segments are resolved one after the other from the root of the
    /// cache. Success is the entry that the last segment led to. The first
    /// segment that fails ends the resolution with its error: the segments
    /// before it are resolved, and none after it is asked for.
    pub open spec fn resolution(
        &self,
        old: &Self,
        segs: Seq<Seq<u8>>,
        r: Result<usize, VfsError>,
    ) -> bool {
        if !old.has_root() {
            r == Err::<usize, VfsError>(VfsError::NotFound) && *self == *old
        } else {
            match r {
                Ok(n) => self.reached(old, segs, n),
                Err(e) => exists|before: VfsContext<F>, k: int, p: usize|
                    #![trigger before.reached(old, segs.take(k), p)]
                    before.reached(old, segs.take(k), p) && 0 <= k < segs.len() && self.looked_up(
                        &before,
                        p,
                        segs[k],
                        Err::<usize, VfsError>(e),
                    ),
            }
        }
    }

    /// Nothing resolved is where the resolution starts.
    pub proof fn lemma_reached_start(&self)
        ensures
            self.reached(self, Seq::empty(), 0),
    {
        let states = seq![*self];
        let entries = seq![0usize];
        assert(Self::steps(self, Seq::empty(), states, entries));
        assert(states.last() == *self && entries.last() == 0);
    }

    /// One more segment resolved after a prefix is a longer prefix
    /// resolved.
    pub proof fn lemma_reached_step(
        &self,
        start: &Self,
        segs: Seq<Seq<u8>>,
        mid: &Self,
        prev: usize,
        cur: usize,
    )
        requires
            segs.len() > 0,
            mid.reached(start, segs.drop_last(), prev),
            self.looked_up(mid, prev, segs.last(), Ok::<usize, VfsError>(cur)),
        ensures
            self.reached(start, segs, cur),
    {
        let (states, entries) = choose|states: Seq<VfsContext<F>>, entries: Seq<usize>|
            #![trigger Self::steps(start, segs.drop_last(), states, entries)]
            Self::steps(start, segs.drop_last(), states, entries) && states.last() == *mid
                && entries.last() == prev;
        let longer = states.push(*self);
        let further = entries.push(cur);
        assert forall|i: int| 1 <= i <= segs.len() implies (#[trigger] longer[i]).looked_up(
            &longer[i - 1],
            further[i - 1],
            segs[i - 1],
            Ok::<usize, VfsError>(further[i]),
        ) by {
            if i < segs.len() {
                assert(states[i].looked_up(
                    &states[i - 1],
                    entries[i - 1],
                    segs.drop_last()[i - 1],
                    Ok::<usize, VfsError>(entries[i]),
                ));
            }
        }
        assert(Self::steps(start, segs, longer, further));
        assert(longer.last() == *self && further.last() == cur);
    }

    /// What resolving segments with success does to a namespace: it stays
    /// well formed, the mounts stay, the cache only grows, and the segments
    /// lead through the cache to the entry that the resolution led to.
    pub proof fn lemma_reached_frame(&self, start: &Self, segs: Seq<Seq<u8>>, cur: usize)
        requires
            start.wf(),
            start.has_root(),
            self.reached(start, segs, cur),
        ensures
            self.wf(),
            self.same_mounts(start),
            self.grows_from(start),
            self.walk(segs) == Some(cur),
            cur < self.nodes.len(),
        decreases segs.len(),
    {
        let (states, entries) = choose|states: Seq<VfsContext<F>>, entries: Seq<usize>|
            #![trigger Self::steps(start, segs, states, entries)]
            Self::steps(start, segs, states, entries) && states.last() == *self && entries.last()
                == cur;
        if segs.len() == 0 {
            assert(*self == *start);
        } else {
            let n = segs.len() as int;
            let mid = states[n - 1];
            let prev = entries[n - 1];
            let shorter = states.drop_last();
            let fewer = entries.drop_last();
            assert forall|i: int| 1 <= i <= n - 1 implies (#[trigger] shorter[i]).looked_up(
                &shorter[i - 1],
                fewer[i - 1],
                segs.drop_last()[i - 1],
                Ok::<usize, VfsError>(fewer[i]),
            ) by {
                assert(states[i].looked_up(
                    &states[i - 1],
                    entries[i - 1],
                    segs[i - 1],
                    Ok::<usize, VfsError>(entries[i]),
                ));
            }
            assert(Self::steps(start, segs.drop_last(), shorter, fewer));
            assert(shorter.last() == mid && fewer.last() == prev);
            assert(mid.reached(start, segs.drop_last(), prev));
            mid.lemma_reached_frame(start, segs.drop_last(), prev);
            assert(states[n].looked_up(
                &states[n - 1],
                entries[n - 1],
                segs[n - 1],
                Ok::<usize, VfsError>(entries[n]),
            ));
            assert(self.looked_up(&mid, prev, segs.last(), Ok::<usize, VfsError>(cur)));
            if mid.nodes[prev as int].child(segs.last()) is Some {
                assert(*self == mid);
                self.lemma_walk_in_bounds(segs);
            } else {
                self.lemma_walk_grows(&mid, segs.drop_last());
            }
            assert forall|m: int| 0 <= m < self.mounts.len() implies (
            #[trigger] self.mounts[m]).same_mount(&start.mounts[m]) by {
                assert(mid.mounts[m].same_mount(&start.mounts[m]));
            }
            assert forall|k: int, name: Seq<u8>|
                0 <= k < start.nodes.len() && (#[trigger] start.nodes[k].child(name))
                    is Some implies self.nodes[k].child(name) == start.nodes[k].child(name) by {
                assert(mid.nodes[k].child(name) == start.nodes[k].child(name));
            }
        }
    }

    /// What a resolution does to a namespace, whatever it comes to: the
    /// namespace stays well formed, the mounts stay, and the cache only
    /// grows. Success is the entry that the path leads to afterwards; after
    /// a failure the path does not resolve through the cache.
    pub proof fn lemma_resolution_frame(
        &self,
        old: &Self,
        segs: Seq<Seq<u8>>,
        r: Result<usize, VfsError>,
    )
        requires
            old.wf(),
            self.resolution(old, segs, r),
        ensures
            self.wf(),
            self.same_mounts(old),
            self.grows_from(old),
            match r {
                Ok(n) => self.walk(segs) == Some(n) && n < self.nodes.len(),
                Err(_) => self.walk(segs) is None,
            },
    {
        if !old.has_root() {
            if old.nodes.len() > 0 {
                assert(old.node_wf(0));
            }
        } else {
            match r {
                Ok(n) => {
                    self.lemma_reached_frame(old, segs, n);
                },
                Err(e) => {
                    let (before, k, p) = choose|before: VfsContext<F>, k: int, p: usize|
                        #![trigger before.reached(old, segs.take(k), p)]
                        before.reached(old, segs.take(k), p) && 0 <= k < segs.len()
                            && self.looked_up(&before, p, segs[k], Err::<usize, VfsError>(e));
                    before.lemma_reached_frame(old, segs.take(k), p);
                    assert forall|m: int| 0 <= m < self.mounts.len() implies (
                    #[trigger] self.mounts[m]).same_mount(&old.mounts[m]) by {
                        assert(before.mounts[m].same_mount(&old.mounts[m]));
                    }
                    assert forall|n: int, name: Seq<u8>|
                        0 <= n < old.nodes.len() && (#[trigger] old.nodes[n].child(name))
                            is Some implies self.nodes[n].child(name) == old.nodes[n].child(
                        name,
                    ) by {
                        assert(before.nodes[n].child(name) == old.nodes[n].child(name));
                    }
                    self.lemma_walk_grows(&before, segs.take(k));
                    assert(segs.take(k + 1).drop_last() =~= segs.take(k));
                    assert(segs.take(k + 1).last() == segs[k]);
                    assert(self.nodes[p as int].same_entry(&before.nodes[p as int]));
                    assert(self.walk(segs.take(k + 1)) is None);
                    if self.walk(segs) is Some {
                        self.lemma_walk_prefix(segs, k + 1);
                    }
                },
            }
        }
    }

    /// Crossing a mount point: a name that is resolved for the first time
    /// in an entry that a mount covers is what the root directory of the
    /// mounted file system answers, in the file system as asking for the
    /// root left it. The node that is covered is not asked. What is found
    /// becomes a new entry below the covered one, without children.
    pub proof fn lemma_lookup_crosses_mount(
        &self,
        old: &Self,
        entry: usize,
        name: Seq<u8>,
        id: usize,
        m: usize,
        fs: F,
    )
        requires
            old.wf(),
            entry < old.nodes.len(),
            old.nodes[entry as int].child(name) is None,
            old.nodes[entry as int].vnode.vfs_mounted_here == Some(m),
            old.mounts[m as int].fs == Some(fs),
            self.looked_up(old, entry, name, Ok::<usize, VfsError>(id)),
        ensures
            exists|root: VNode<F::Node>, mid: F|
                #![trigger fs.root_result(m, &mid, Ok::<VNode<F::Node>, VfsError>(root))]
                fs.root_result(m, &mid, Ok::<VNode<F::Node>, VfsError>(root)) && mid.wf()
                    && root.inode.lookup_result(
                    &mid,
                    name,
                    m,
                    Ok::<VNode<F::Node>, VfsError>(self.nodes[id as int].vnode),
                ),
            self.nodes[entry as int].child(name) == Some(id),
            self.nodes[id as int].parent == Some(entry),
            self.nodes[id as int].children@.len() == 0,
    {
        let found = Ok::<VNode<F::Node>, VfsError>(self.nodes[id as int].vnode);
        assert(old.fetched(entry, name, found));
    }

    /// A well-formed cache leads only to entries that exist.
    pub proof fn lemma_walk_in_bounds(&self, segs: Seq<Seq<u8>>)
        requires
            self.wf(),
            self.walk(segs) is Some,
        ensures
            self.walk(segs)->Some_0 < self.nodes.len(),
        decreases segs.len(),
    {
        if segs.len() > 0 {
            let p = self.walk(segs.drop_last())->Some_0;
            assert(self.node_wf(p as int));
            lemma_find_child_is_entry(self.nodes[p as int].children@, segs.last(), 0);
        }
    }

    /// A path that was resolved stays resolved, to the same entry, while the
    /// cache grows.
    pub proof fn lemma_walk_grows(&self, old: &Self, segs: Seq<Seq<u8>>)
        requires
            old.wf(),
            self.grows_from(old),
            old.walk(segs) is Some,
        ensures
            self.walk(segs) == old.walk(segs),
        decreases segs.len(),
    {
        if segs.len() > 0 {
            self.lemma_walk_grows(old, segs.drop_last());
            old.lemma_walk_in_bounds(segs.drop_last());
            let p = old.walk(segs.drop_last())->Some_0;
            assert(old.nodes[p as int].child(segs.last()) is Some);
        }
    }

    /// Every prefix of a resolved path is resolved.
    pub proof fn lemma_walk_prefix(&self, segs: Seq<Seq<u8>>, k: int)
        requires
            0 <= k <= segs.len(),
            self.walk(segs) is Some,
        ensures
            self.walk(segs.take(k)) is Some,
        decreases segs.len(),
    {
        if k == segs.len() {
            assert(segs.take(k) =~= segs);
        } else {
            self.lemma_walk_prefix(segs.drop_last(), k);
            assert(segs.drop_last().take(k) =~= segs.take(k));
        }
    }

    /// An empty namespace: nothing mounted, nothing cached.
    pub fn new() -> (r: Self)
        ensures
            r.wf(),
            !r.has_root(),
            r.nodes.len() == 0,
    {
        Self { mounts: Vec::new(), nodes: Vec::new() }
    }

    /// Adds a cache entry for `vnode` below `entry`, under the name `name`,
    /// and returns its handle.
    pub fn attach(&mut self, entry: usize, name: &[u8], vnode: VNode<F::Node>) -> (id: usize)
        requires
            old(self).wf(),
            entry < old(self).nodes.len(),
            old(self).nodes[entry as int].child(name@) is None,
            vnode.vfs_mounted_here is None,
            vnode.parent_vfs < old(self).mounts.len(),
        ensures
            final(self).wf(),
            final(self).mounts == old(self).mounts,
            final(self).attached(old(self), entry, name@, id),
            final(self).grows_from(old(self)),
            final(self).nodes[id as int].vnode == vnode,
    {
        let id = self.nodes.len();
        let mut key: Vec<u8> = Vec::new();
        key.extend_from_slice(name);
        assert(key@ =~= name@);
        let ghost before = self.nodes[entry as int].children@;
        self.nodes.push(TreeNode { vnode, parent: Some(entry), children: Vec::new(), index: id });
        self.nodes[entry].children.push((key, id));
        proof {
            assert forall|other: Seq<u8>|
                self.nodes[entry as int].child(other) == match old(self).nodes[entry as int].child(
                    other,
                ) {
                    Some(c) => Some(c),
                    None => if other == name@ {
                        Some(id)
                    } else {
                        None
                    },
                } by {
                lemma_find_child_push(before, (key, id), other, 0);
            }
            lemma_find_child_none(before, name@, 0);
            assert forall|n: int| 0 <= n < self.nodes.len() implies #[trigger] self.node_wf(n) by {
                if n < id {
                    assert(old(self).node_wf(n));
                }
                if n == entry {
                    let now = self.nodes[n].children@;
                    assert(now == before.push((key, id)));
                    assert forall|i: int, j: int| 0 <= i < j < now.len() implies (
                    #[trigger] now[i]).0@ != (#[trigger] now[j]).0@ by {
                        if j < before.len() {
                            assert(now[i] == before[i] && now[j] == before[j]);
                        } else {
                            assert(now[i] == before[i]);
                        }
                    }
                }
            }
            assert forall|m: int| 0 <= m < self.mounts.len() implies #[trigger] self.mount_wf(
                m,
            ) by {
                assert(old(self).mount_wf(m));
            }
            assert forall|a: int, b: int|
                #[trigger] self.live(a) && #[trigger] self.live(b) && a != b implies self.mounts[a].path()
                != self.mounts[b].path() by {
                assert(old(self).live(a) && old(self).live(b));
            }
        }
        id
    }

    /// Asks the backends for `name` in the entry `entry`; see
    /// [`Self::fetched`]. The cache keeps its shape.
    pub fn fetch(&mut self, entry: usize, name: &[u8]) -> (r: Result<VNode<F::Node>, VfsError>)
        requires
            old(self).wf(),
            entry < old(self).nodes.len(),
        ensures
            final(self).wf(),
            final(self).same_mounts(old(self)),
            final(self).same_entries(old(self)),
            old(self).fetched(entry, name@, r),
            r is Ok ==> r->Ok_0.ref_count == 0 && r->Ok_0.vfs_mounted_here is None
                && r->Ok_0.parent_vfs < old(self).mounts.len(),
    {
        assert(self.node_wf(entry as int));
        let cred = UserCred { uid: 0, gid: 0 };
        let r = match self.nodes[entry].vnode.vfs_mounted_here {
            Some(m) => {
                assert(self.mount_wf(m as int));
                match &mut self.mounts[m].fs {
                    Some(fs) => {
                        match fs.root(m) {
                            Ok(mut root) => {
                                let ghost first = root;
                                let ghost mid = *fs;
                                assert(old(self).mounts[m as int].fs->Some_0.root_result(
                                    m,
                                    &mid,
                                    Ok::<VNode<F::Node>, VfsError>(first),
                                ));
                                let r = root.lookup(fs, name, cred);
                                assert(first.inode.lookup_result(&mid, name@, m, r));
                                r
                            },
                            Err(e) => {
                                let ghost mid = *fs;
                                assert(old(self).mounts[m as int].fs->Some_0.root_result(
                                    m,
                                    &mid,
                                    Err::<VNode<F::Node>, VfsError>(e),
                                ));
                                Err(e)
                            },
                        }
                    },
                    None => Err(VfsError::NotFound),
                }
            },
            None => {
                let m = self.nodes[entry].vnode.parent_vfs;
                assert(self.mount_wf(m as int));
                match &mut self.mounts[m].fs {
                    Some(fs) => self.nodes[entry].vnode.lookup(fs, name, cred),
                    None => Err(VfsError::NotFound),
                }
            },
        };
        proof {
            assert forall|n: int| 0 <= n < self.nodes.len() implies #[trigger] self.node_wf(n) by {
                assert(old(self).node_wf(n));
                let m = old(self).nodes[n].vnode.vfs_mounted_here;
                if m is Some {
                    assert(self.mounts[m->Some_0 as int].same_mount(&old(self).mounts[m->Some_0 as int]));
                }
            }
            assert forall|m: int| 0 <= m < self.mounts.len() implies #[trigger] self.mount_wf(
                m,
            ) by {
                assert(old(self).mount_wf(m));
                assert(self.mounts[m].same_mount(&old(self).mounts[m]));
            }
            assert forall|a: int, b: int|
                #[trigger] self.live(a) && #[trigger] self.live(b) && a != b implies self.mounts[a].path()
                != self.mounts[b].path() by {
                assert(self.mounts[a].same_mount(&old(self).mounts[a]));
                assert(self.mounts[b].same_mount(&old(self).mounts[b]));
                assert(old(self).live(a) && old(self).live(b));
            }
        }
        r
    }
}

impl<N> TreeNode<N> {
    /// Resolves `name` in the cache entry `entry` and returns the handle of
    /// the entry it resolves to.
    ///
    /// A name that was resolved here before is answered from the cache, and
    /// nothing changes. Else the backends are asked (see
    /// [`VfsContext::fetched`]); what they find becomes a new entry below
    /// `entry`, and what they fail with is the error. An entry that does not
    /// exist holds nothing.
    pub fn lookup<F>(ctx: &mut VfsContext<F>, entry: usize, name: &[u8]) -> (r: Result<
        usize,
        VfsError,
    >) where F: FsOps<Node = N>, N: VNodeOperations<F>
        requires
            old(ctx).wf(),
        ensures
            final(ctx).wf(),
            final(ctx).same_mounts(old(ctx)),
            final(ctx).grows_from(old(ctx)),
            final(ctx).looked_up(old(ctx), entry, name@, r),
            entry >= old(ctx).nodes.len() ==> r == Err::<usize, VfsError>(VfsError::NotFound)
                && *final(ctx) == *old(ctx),
            entry < old(ctx).nodes.len() ==> match old(ctx).nodes[entry as int].child(name@) {
                Some(c) => r == Ok::<usize, VfsError>(c) && *final(ctx) == *old(ctx),
                None => match r {
                    Ok(id) => final(ctx).attached(old(ctx), entry, name@, id) && old(ctx).fetched(
                        entry,
                        name@,
                        Ok::<VNode<N>, VfsError>(final(ctx).nodes[id as int].vnode),
                    ),
                    Err(e) => final(ctx).same_entries(old(ctx)) && old(ctx).fetched(
                        entry,
                        name@,
                        Err::<VNode<N>, VfsError>(e),
                    ),
                },
            },
    {
        if entry >= ctx.nodes.len() {
            return Err(VfsError::NotFound);
        }
        match ctx.nodes[entry].cached(name) {
            Some(c) => {
                return Ok(c);
            },
            None => {},
        }
        let ghost before = *ctx;
        let vnode = ctx.fetch(entry, name)?;
        let ghost mid = *ctx;
        assert(mid.nodes[entry as int].same_entry(&before.nodes[entry as int]));
        let id = ctx.attach(entry, name, vnode);
        proof {
            assert forall|n: int, other: Seq<u8>|
                0 <= n < before.nodes.len() && (n != entry || other != name@) implies (
            #[trigger] ctx.nodes[n].child(other)) == before.nodes[n].child(other) by {
                assert(mid.nodes[n].same_entry(&before.nodes[n]));
            }
            assert forall|n: int| 0 <= n < before.nodes.len() implies (
            #[trigger] ctx.nodes[n]).vnode.same_handle(&before.nodes[n].vnode)
                && ctx.nodes[n].parent == before.nodes[n].parent && ctx.nodes[n].index
                == before.nodes[n].index by {
                assert(mid.nodes[n].same_entry(&before.nodes[n]));
            }
            assert forall|n: int, other: Seq<u8>|
                0 <= n < before.nodes.len() && (#[trigger] before.nodes[n].child(other)) is Some
                implies ctx.nodes[n].child(other) == before.nodes[n].child(other) by {
                assert(mid.nodes[n].same_entry(&before.nodes[n]));
            }
        }
        Ok(id)
    }
}

/// Resolves the path `path` through the cache, segment by segment from the
/// root, and returns the handle of the entry it leads to.
///
/// Empty segments are skipped. The first segment that does not resolve ends
/// the walk with its error. Without a root mount nothing resolves.
///
/// A path that was resolved before leads to the same entry again, and
/// resolving it changes nothing: the backends are not asked.
/// [`VfsContext::resolution`] says exactly which entry is asked for which
/// segment, and what the backends' answers come to.
pub fn open_path<F: FsOps>(ctx: &mut VfsContext<F>, path: &[u8]) -> (r: Result<
    usize,
    VfsError,
>) where F::Node: VNodeOperations<F>
    requires
        old(ctx).wf(),
    ensures
        final(ctx).wf(),
        final(ctx).same_mounts(old(ctx)),
        final(ctx).grows_from(old(ctx)),
        !old(ctx).has_root() ==> r == Err::<usize, VfsError>(VfsError::NotFound) && *final(ctx)
            == *old(ctx),
        old(ctx).walk(segments(path@)) is Some ==> r == Ok::<usize, VfsError>(
            old(ctx).walk(segments(path@))->Some_0,
        ) && *final(ctx) == *old(ctx),
        r is Ok ==> final(ctx).walk(segments(path@)) == Some(r->Ok_0) && r->Ok_0 < final(ctx).nodes.len(),
        r is Err ==> final(ctx).walk(segments(path@)) is None,
        final(ctx).resolution(old(ctx), segments(path@), r),
{
    if ctx.mounts.len() == 0 {
        proof {
            // Without a mount there is no cache either.
            if ctx.nodes.len() > 0 {
                assert(ctx.node_wf(0));
            }
        }
        return Err(VfsError::NotFound);
    }
    let parts = split_path(path);
    let ghost segs = segments(path@);
    let ghost start = *ctx;
    let mut cur_node: usize = 0;
    let mut k: usize = 0;
    assert(segs.take(0) =~= Seq::<Seq<u8>>::empty());
    proof {
        ctx.lemma_reached_start();
    }
    while k < parts.len()
        invariant
            k <= parts.len(),
            views(parts@) == segs,
            segs == segments(path@),
            start == *old(ctx),
            start.wf(),
            ctx.wf(),
            ctx.same_mounts(&start),
            ctx.grows_from(&start),
            cur_node < ctx.nodes.len(),
            ctx.walk(segs.take(k as int)) == Some(cur_node),
            start.walk(segs) is Some ==> *ctx == start,
            ctx.reached(&start, segs.take(k as int), cur_node),
        decreases parts.len() - k,
    {
        let ghost before = *ctx;
        proof {
            assert(segs.take(k + 1).drop_last() =~= segs.take(k as int));
            assert(segs.take(k + 1).last() == segs[k as int]);
            assert(views(parts@)[k as int] == parts[k as int]@);
            if start.walk(segs) is Some {
                start.lemma_walk_prefix(segs, k + 1);
                assert(before.walk(segs.take(k + 1)) == before.nodes[cur_node as int].child(
                    segs[k as int],
                ));
            }
        }
        match TreeNode::lookup(ctx, cur_node, parts[k].as_slice()) {
            Ok(new_node) => {
                proof {
                    if before.nodes[cur_node as int].child(segs[k as int]) is Some {
                        before.lemma_walk_in_bounds(segs.take(k + 1));
                    }
                    ctx.lemma_walk_grows(&before, segs.take(k as int));
                    assert forall|n: int, name: Seq<u8>|
                        0 <= n < start.nodes.len() && (#[trigger] start.nodes[n].child(name))
                            is Some implies ctx.nodes[n].child(name) == start.nodes[n].child(
                        name,
                    ) by {
                        assert(before.nodes[n].child(name) == start.nodes[n].child(name));
                    }
                    assert forall|m: int| 0 <= m < ctx.mounts.len() implies (
                    #[trigger] ctx.mounts[m]).same_mount(&start.mounts[m]) by {
                        assert(before.mounts[m].same_mount(&start.mounts[m]));
                    }
                    assert(before.reached(&start, segs.take(k + 1).drop_last(), cur_node));
                    assert(ctx.looked_up(
                        &before,
                        cur_node,
                        segs.take(k + 1).last(),
                        Ok::<usize, VfsError>(new_node),
                    ));
                    ctx.lemma_reached_step(&start, segs.take(k + 1), &before, cur_node, new_node);
                }
                cur_node = new_node;
            },
            Err(e) => {
                proof {
                    assert forall|n: int, name: Seq<u8>|
                        0 <= n < start.nodes.len() && (#[trigger] start.nodes[n].child(name))
                            is Some implies ctx.nodes[n].child(name) == start.nodes[n].child(
                        name,
                    ) by {
                        assert(before.nodes[n].child(name) == start.nodes[n].child(name));
                    }
                    assert forall|m: int| 0 <= m < ctx.mounts.len() implies (
                    #[trigger] ctx.mounts[m]).same_mount(&start.mounts[m]) by {
                        assert(before.mounts[m].same_mount(&start.mounts[m]));
                    }
                    ctx.lemma_walk_grows(&before, segs.take(k as int));
                    assert(before.nodes[cur_node as int].child(segs[k as int]) is None);
                    assert(ctx.nodes[cur_node as int].same_entry(&before.nodes[cur_node as int]));
                    assert(ctx.walk(segs.take(k + 1)) is None);
                    if ctx.walk(segs) is Some {
                        ctx.lemma_walk_prefix(segs, k + 1);
                    }
                    assert(before.reached(&start, segs.take(k as int), cur_node));
                    assert(ctx.looked_up(
                        &before,
                        cur_node,
                        segs[k as int],
                        Err::<usize, VfsError>(e),
                    ));
                }
                return Err(e);
            },
        }
        k += 1;
    }
    assert(segs.take(k as int) =~= segs);
    Ok(cur_node)
}

/// Resolves `path` through the cache; see [`open_path`].
pub fn vfs_open<F: FsOps>(ctx: &mut VfsContext<F>, path: &str) -> (r: Result<
    usize,
    VfsError,
>) where F::Node: VNodeOperations<F>
    requires
        old(ctx).wf(),
    ensures
        final(ctx).wf(),
        final(ctx).same_mounts(old(ctx)),
        final(ctx).grows_from(old(ctx)),
        !old(ctx).has_root() ==> r == Err::<usize, VfsError>(VfsError::NotFound) && *final(ctx)
            == *old(ctx),
        old(ctx).walk(segments(path.spec_bytes())) is Some ==> r == Ok::<usize, VfsError>(
            old(ctx).walk(segments(path.spec_bytes()))->Some_0,
        ) && *final(ctx) == *old(ctx),
        r is Ok ==> final(ctx).walk(segments(path.spec_bytes())) == Some(r->Ok_0) && r->Ok_0
            < final(ctx).nodes.len(),
        r is Err ==> final(ctx).walk(segments(path.spec_bytes())) is None,
        final(ctx).resolution(old(ctx), segments(path.spec_bytes()), r),
{
    open_path(ctx, path.as_bytes())
}

impl<F: FsOps> VfsContext<F> where F::Node: VNodeOperations<F> {
    /// Whether this is the namespace that the first mount makes: the one
    /// slot of the mount table holds the file system `fs` at the root path,
    /// and the one entry of the cache is its root directory `root`.
    pub open spec fn root_added(&self, fs: F, root: VNode<F::Node>) -> bool {
        &&& self.mounts.len() == 1
        &&& self.mounts[0].fs == Some(fs)
        &&& self.mounts[0].path() == root_path()
        &&& self.mounts[0].vnode_covered is None
        &&& self.mounts[0].handle == 0
        &&& self.mounts[0].flags == 0
        &&& self.mounts[0].block_size == 0
        &&& self.nodes.len() == 1
        &&& self.nodes[0].vnode == root
        &&& self.nodes[0].parent is None
        &&& self.nodes[0].children@.len() == 0
        &&& self.nodes[0].index == 0
    }

    /// Whether this is `old` after the file system `fs` was mounted at
    /// `path` over the entry `target`: the mount table has one more slot,
    /// which holds the new mount, and the slots before it are as they were;
    /// the entry `target` is covered by the new mount and has no cached
    /// children any more; every other entry is as it was.
    pub open spec fn mount_added(&self, old: &Self, fs: F, path: Seq<u8>, target: usize) -> bool {
        let m = old.mounts.len() as int;
        &&& self.mounts.len() == m + 1
        &&& forall|k: int| 0 <= k < m ==> (#[trigger] self.mounts[k]) == old.mounts[k]
        &&& self.mounts[m].fs == Some(fs)
        &&& self.mounts[m].path() == path
        &&& self.mounts[m].vnode_covered == Some(target)
        &&& self.mounts[m].handle == m
        &&& self.mounts[m].flags == 0
        &&& self.mounts[m].block_size == 0
        &&& self.nodes.len() == old.nodes.len()
        &&& forall|n: int|
            0 <= n < old.nodes.len() && n != target ==> (#[trigger] self.nodes[n]) == old.nodes[n]
        &&& self.nodes[target as int].vnode == (VNode {
            vfs_mounted_here: Some(m as usize),
            ..old.nodes[target as int].vnode
        })
        &&& self.nodes[target as int].parent == old.nodes[target as int].parent
        &&& self.nodes[target as int].index == old.nodes[target as int].index
        &&& self.nodes[target as int].children@.len() == 0
    }

    /// Whether this is `old` after the mount of the file system `fs` at the
    /// normalized path `path` was asked for, with the result `r`.
    ///
    /// What the mount table refuses (see [`Self::mount_check`]) is refused,
    /// and nothing changes.
    ///
    /// For the root mount the file system is asked for its root directory
    /// and then told that it is mounted, with the handle 0. Either can
    /// refuse, with `Backend` and nothing changed; else the namespace is as
    /// [`Self::root_added`] says.
    ///
    /// For any other mount the path is resolved first (see
    /// [`Self::resolution`]). A path that does not resolve is
    /// `TargetNotFound`; one that leads to the root or to a covered entry is
    /// `AlreadyMounted`; in both cases the file system is not asked, and the
    /// namespace is as the resolution left it. Else the file system is told
    /// that it is mounted, with the handle of the next slot. If it refuses,
    /// that is `Backend`, and the namespace is as the resolution left it;
    /// else it is as [`Self::mount_added`] says.
    pub open spec fn added(&self, old: &Self, path: Seq<u8>, fs: F, r: Result<(), MountError>) -> bool {
        match old.mount_check(path) {
            Err(e) => r == Err::<(), MountError>(e) && *self == *old,
            Ok(_) => if path == root_path() {
                self.root_tried(old, fs, r)
            } else {
                self.mount_tried(old, path, fs, r)
            },
        }
    }

    /// The root mount, once the mount table agrees; see [`Self::added`].
    pub open spec fn root_tried(&self, old: &Self, fs: F, r: Result<(), MountError>) -> bool {
        exists|mid: F, rooted: Result<VNode<F::Node>, VfsError>|
            #![trigger fs.root_result(0, &mid, rooted)]
            fs.root_result(0, &mid, rooted) && match rooted {
                Err(e) => r == Err::<(), MountError>(MountError::Backend(e)) && *self == *old,
                Ok(root) => mid.wf() && self.told(old, mid, root_path(), 0, r) && match r {
                    Ok(_) => self.nodes.len() == 1 && self.nodes[0].vnode == root
                        && self.root_added(self.mounts[0].fs->Some_0, root),
                    Err(_) => true,
                },
            }
    }

    /// Whether the file system `fs` was told that it is mounted at `path`
    /// with the handle `m`, and what it answered is what the mount came
    /// to, `r`. Where it refused, the namespace is as it was; else the slot
    /// `m` of the mount table holds the file system as telling it left it.
    pub open spec fn told(
        &self,
        old: &Self,
        fs: F,
        path: Seq<u8>,
        m: usize,
        r: Result<(), MountError>,
    ) -> bool {
        match r {
            Ok(_) => m < self.mounts.len() && self.mounts[m as int].fs is Some && fs.mount_result(
                path,
                m,
                &self.mounts[m as int].fs->Some_0,
                Ok::<(), VfsError>(()),
            ),
            Err(MountError::Backend(e)) => *self == *old && exists|after: F| #[trigger]
                fs.mount_result(path, m, &after, Err::<(), VfsError>(e)),
            Err(_) => false,
        }
    }

    /// A mount other than the root mount, once the mount table agrees; see
    /// [`Self::added`].
    pub open spec fn mount_tried(
        &self,
        old: &Self,
        path: Seq<u8>,
        fs: F,
        r: Result<(), MountError>,
    ) -> bool {
        exists|resolved: VfsContext<F>, target: Result<usize, VfsError>|
            #![trigger resolved.resolution(old, segments(path), target)]
            resolved.resolution(old, segments(path), target) && match target {
                Err(_) => r == Err::<(), MountError>(MountError::TargetNotFound) && *self
                    == resolved,
                Ok(t) => if t == 0 || resolved.nodes[t as int].vnode.vfs_mounted_here is Some {
                    r == Err::<(), MountError>(MountError::AlreadyMounted) && *self == resolved
                } else {
                    self.told(&resolved, fs, path, old.mounts.len(), r) && match r {
                        Ok(_) => self.mount_added(
                            &resolved,
                            self.mounts[old.mounts.len() as int].fs->Some_0,
                            path,
                            t,
                        ),
                        Err(_) => true,
                    }
                },
            }
    }

    /// Whether a mount at the normalized path `path` can be added, as far as
    /// the mount table decides: there is one root mount, it comes first, and
    /// no path is mounted twice.
    pub open spec fn mount_check(&self, path: Seq<u8>) -> Result<(), MountError> {
        if path == root_path() {
            if self.has_root() {
                Err(MountError::RootMounted)
            } else {
                Ok(())
            }
        } else if !self.has_root() {
            Err(MountError::NoRoot)
        } else if self.mounted(path) {
            Err(MountError::AlreadyMounted)
        } else {
            Ok(())
        }
    }

    /// Where anything is mounted, the root is mounted: a mount other than
    /// the root can only be added once the root mount exists, and the root
    /// mount is the last to go.
    pub proof fn lemma_root_first(&self, path: Seq<u8>)
        requires
            self.wf(),
            self.mounted(path),
        ensures
            self.mounted(root_path()),
            self.has_root(),
    {
        assert(self.mount_wf(0));
        assert(self.live(0));
    }

    /// While a root mount exists, no second one can be added.
    pub proof fn lemma_one_root(&self)
        requires
            self.wf(),
            self.has_root(),
        ensures
            self.mount_check(root_path()) == Err::<(), MountError>(MountError::RootMounted),
            forall|m: int| #[trigger] self.live(m) && self.mounts[m].path() == root_path() ==> m == 0,
    {
        assert forall|m: int| #[trigger] self.live(m) && self.mounts[m].path() == root_path() implies m
            == 0 by {
            assert(self.mount_wf(m));
        }
    }

    /// Whether a file system is mounted at the normalized path `path`.
    pub fn is_mounted(&self, path: &[u8]) -> (r: bool)
        ensures
            r == self.mounted(path@),
    {
        let mut m: usize = 0;
        while m < self.mounts.len()
            invariant
                m <= self.mounts.len(),
                forall|k: int| 0 <= k < m ==> !(#[trigger] self.live(k) && self.mounts[k].path() == path@),
            decreases self.mounts.len() - m,
        {
            if self.mounts[m].fs.is_some() {
                match &self.mounts[m].mount_point {
                    Some(p) => {
                        if crate::libs::bytes::bytes_eq(p.as_slice(), path) {
                            assert(self.live(m as int));
                            return true;
                        }
                    },
                    None => {
                        if path.len() == 0 {
                            assert(self.live(m as int));
                            assert(path@ =~= Seq::<u8>::empty());
                            return true;
                        }
                    },
                }
            }
            m += 1;
        }
        false
    }

    /// How many of the first `n` slots of the mount table hold a mount.
    pub open spec fn live_below(&self, n: int) -> int
        decreases n,
    {
        if n <= 0 {
            0
        } else if self.live(n - 1) {
            self.live_below(n - 1) + 1
        } else {
            self.live_below(n - 1)
        }
    }

    /// The number of file systems that are mounted.
    pub fn mount_count(&self) -> (r: usize)
        ensures
            r == self.live_below(self.mounts.len() as int),
            r == 0 <==> forall|m: int| !#[trigger] self.live(m),
    {
        let mut count: usize = 0;
        let mut m: usize = 0;
        while m < self.mounts.len()
            invariant
                m <= self.mounts.len(),
                count <= m,
                count == self.live_below(m as int),
                count == 0 <==> forall|k: int| 0 <= k < m ==> !#[trigger] self.live(k),
            decreases self.mounts.len() - m,
        {
            if self.mounts[m].fs.is_some() {
                assert(self.live(m as int));
                count += 1;
            }
            m += 1;
        }
        count
    }

    /// Checks the mount table for a new mount at `path`; see
    /// [`Self::mount_check`].
    pub fn check_mount(&self, path: &[u8]) -> (r: Result<(), MountError>)
        ensures
            r == self.mount_check(path@),
    {
        let is_root = path.len() == 1 && path[0] == SEPARATOR;
        assert(is_root == (path@ == root_path())) by {
            if is_root {
                assert(path@ =~= root_path());
            }
        }
        if is_root {
            if self.mounts.len() > 0 {
                return Err(MountError::RootMounted);
            }
            Ok(())
        } else if self.mounts.len() == 0 {
            Err(MountError::NoRoot)
        } else if self.is_mounted(path) {
            Err(MountError::AlreadyMounted)
        } else {
            Ok(())
        }
    }

    /// Records the root mount `vfs` and starts the cache with its root
    /// directory `root`.
    pub fn install_root(&mut self, vfs: Vfs<F>, root: VNode<F::Node>)
        requires
            old(self).wf(),
            !old(self).has_root(),
            vfs.wf(),
            vfs.live(),
            vfs.path() == root_path(),
            vfs.handle == 0,
            vfs.vnode_covered is None,
            root.vfs_mounted_here is None,
            root.parent_vfs == 0,
        ensures
            final(self).wf(),
            final(self).mounts@ == seq![vfs],
            final(self).nodes.len() == 1,
            final(self).nodes[0].vnode == root,
            final(self).nodes[0].children@.len() == 0,
            final(self).nodes[0].parent is None,
            final(self).nodes[0].index == 0,
            forall|q: Seq<u8>| final(self).mounted(q) <==> q == root_path(),
    {
        self.mounts.push(vfs);
        self.nodes.push(TreeNode::new(root));
        proof {
            assert(self.mount_wf(0));
            assert(self.node_wf(0));
            assert(self.live(0));
            assert forall|q: Seq<u8>| self.mounted(q) <==> q == root_path() by {
                if q == root_path() {
                    assert(self.live(0) && self.mounts[0].path() == q);
                }
            }
        }
    }

    /// Records the mount `vfs` as covering the cache entry `target`.
    pub fn install_mount(&mut self, vfs: Vfs<F>, target: usize)
        requires
            old(self).wf(),
            old(self).has_root(),
            vfs.wf(),
            vfs.live(),
            vfs.path() != root_path(),
            !old(self).mounted(vfs.path()),
            vfs.handle == old(self).mounts.len(),
            0 < target < old(self).nodes.len(),
            old(self).nodes[target as int].vnode.vfs_mounted_here is None,
        ensures
            final(self).wf(),
            final(self).mounts.len() == old(self).mounts.len() + 1,
            forall|m: int|
                0 <= m < old(self).mounts.len() ==> (#[trigger] final(self).mounts[m]) == old(
                    self,
                ).mounts[m],
            final(self).mounts[old(self).mounts.len() as int] == (Vfs {
                vnode_covered: Some(target),
                ..vfs
            }),
            final(self).mounts[old(self).mounts.len() as int].fs == vfs.fs,
            final(self).mounts[old(self).mounts.len() as int].vnode_covered == Some(target),
            final(self).nodes.len() == old(self).nodes.len(),
            final(self).nodes[target as int].vnode == (VNode {
                vfs_mounted_here: Some(vfs.handle),
                ..old(self).nodes[target as int].vnode
            }),
            final(self).nodes[target as int].parent == old(self).nodes[target as int].parent,
            final(self).nodes[target as int].index == old(self).nodes[target as int].index,
            final(self).nodes[target as int].vnode.vfs_mounted_here == Some(vfs.handle),
            final(self).nodes[target as int].children@.len() == 0,
            forall|n: int|
                0 <= n < old(self).nodes.len() && n != target ==> (#[trigger] final(self).nodes[n])
                    == old(self).nodes[n],
            forall|q: Seq<u8>| final(self).mounted(q) <==> (old(self).mounted(q) || q == vfs.path()),
    {
        let mut vfs = vfs;
        let handle = self.mounts.len();
        vfs.vnode_covered = Some(target);
        self.mounts.push(vfs);
        self.nodes[target].cover(handle);
        proof {
            assert forall|m: int| 0 <= m < self.mounts.len() implies #[trigger] self.mount_wf(
                m,
            ) by {
                if m < handle {
                    assert(old(self).mount_wf(m));
                    if old(self).mounts[m].live() && m > 0 {
                        let c = old(self).mounts[m].vnode_covered->Some_0;
                        assert(c != target);
                    }
                }
            }
            assert forall|n: int| 0 <= n < self.nodes.len() implies #[trigger] self.node_wf(n) by {
                assert(old(self).node_wf(n));
                if n != target {
                    let m = old(self).nodes[n].vnode.vfs_mounted_here;
                    if m is Some {
                        assert(old(self).live(m->Some_0 as int));
                    }
                }
            }
            assert forall|a: int, b: int|
                #[trigger] self.live(a) && #[trigger] self.live(b) && a != b implies self.mounts[a].path()
                != self.mounts[b].path() by {
                if a < handle && b < handle {
                    assert(old(self).live(a) && old(self).live(b));
                } else if a < handle {
                    assert(old(self).live(a));
                } else {
                    assert(old(self).live(b));
                }
            }
            assert forall|q: Seq<u8>|
                self.mounted(q) <==> (old(self).mounted(q) || q == vfs.path()) by {
                if old(self).mounted(q) {
                    let m = choose|m: int| #[trigger]
                        old(self).live(m) && old(self).mounts[m].path() == q;
                    assert(self.live(m));
                }
                if q == vfs.path() {
                    assert(self.live(handle as int));
                }
                if self.mounted(q) {
                    let m = choose|m: int| #[trigger] self.live(m) && self.mounts[m].path() == q;
                    if m < handle {
                        assert(old(self).live(m));
                    }
                }
            }
        }
    }

    /// Whether any file system but the root is mounted.
    pub fn has_other_mounts(&self) -> (r: bool)
        ensures
            r == !self.only_root(),
    {
        let mut m: usize = 1;
        while m < self.mounts.len()
            invariant
                1 <= m,
                forall|k: int| 0 < k < m ==> !#[trigger] self.live(k),
            decreases self.mounts.len() - m,
        {
            if self.mounts[m].fs.is_some() {
                assert(self.live(m as int));
                return true;
            }
            m += 1;
        }
        false
    }

    /// The slot of the mount at the normalized path `path`, if something is
    /// mounted there.
    pub fn find_mount(&self, path: &[u8]) -> (r: Option<usize>)
        ensures
            match r {
                Some(m) => self.live(m as int) && self.mounts[m as int].path() == path@,
                None => !self.mounted(path@),
            },
    {
        let mut m: usize = 0;
        while m < self.mounts.len()
            invariant
                m <= self.mounts.len(),
                forall|k: int| 0 <= k < m ==> !(#[trigger] self.live(k) && self.mounts[k].path() == path@),
            decreases self.mounts.len() - m,
        {
            if self.mounts[m].fs.is_some() {
                match &self.mounts[m].mount_point {
                    Some(p) => {
                        if crate::libs::bytes::bytes_eq(p.as_slice(), path) {
                            return Some(m);
                        }
                    },
                    None => {
                        if path.len() == 0 {
                            assert(path@ =~= Seq::<u8>::empty());
                            return Some(m);
                        }
                    },
                }
            }
            m += 1;
        }
        None
    }

    /// Whether this is `old` after the mount in slot `m`, which is not the
    /// root mount, was taken out: the slot is free and every other slot is
    /// as it was, in its place; the entry that the mount covered is covered
    /// no more and has no cached children, and every other entry is as it
    /// was.
    pub open spec fn mount_removed(&self, old: &Self, m: usize) -> bool {
        let covered = old.mounts[m as int].vnode_covered->Some_0 as int;
        &&& self.mounts.len() == old.mounts.len()
        &&& forall|k: int|
            0 <= k < old.mounts.len() && k != m ==> (#[trigger] self.mounts[k]) == old.mounts[k]
        &&& !self.mounts[m as int].live()
        &&& self.mounts[m as int].handle == m
        &&& self.nodes.len() == old.nodes.len()
        &&& forall|n: int|
            0 <= n < old.nodes.len() && n != covered ==> (#[trigger] self.nodes[n])
                == old.nodes[n]
        &&& self.nodes[covered].vnode == (VNode {
            vfs_mounted_here: None,
            ..old.nodes[covered].vnode
        })
        &&& self.nodes[covered].parent == old.nodes[covered].parent
        &&& self.nodes[covered].index == old.nodes[covered].index
        &&& self.nodes[covered].children@.len() == 0
    }

    /// Whether this is `old` after the mount at the normalized path `path`,
    /// which is not the root path, was taken out, if there was one; see
    /// [`Self::mount_removed`]. Without such a mount nothing changes.
    pub open spec fn removed(&self, old: &Self, path: Seq<u8>) -> bool {
        if old.mounted(path) {
            exists|m: usize| #[trigger]
                old.live(m as int) && old.mounts[m as int].path() == path && self.mount_removed(
                    old,
                    m,
                )
        } else {
            *self == *old
        }
    }

    /// Takes the mount at the normalized path `path` out of the mount table,
    /// if there is one, and uncovers the cache entry that it covered.
    pub fn remove_mount(&mut self, path: &[u8])
        requires
            old(self).wf(),
            path@ != root_path(),
        ensures
            final(self).wf(),
            final(self).mounts.len() == old(self).mounts.len(),
            final(self).nodes.len() == old(self).nodes.len(),
            forall|q: Seq<u8>| final(self).mounted(q) <==> (old(self).mounted(q) && q != path@),
            !old(self).mounted(path@) ==> *final(self) == *old(self),
            final(self).removed(old(self), path@),
    {
        let m = match self.find_mount(path) {
            Some(m) => m,
            None => {
                return ;
            },
        };
        assert(self.mount_wf(m as int));
        let covered = match self.mounts[m].vnode_covered {
            Some(c) => c,
            None => {
                proof {
                    // A mount other than the root mount covers an entry.
                    assert(m > 0) by {
                        assert(self.mount_wf(m as int));
                    }
                    assert(false);
                }
                return ;
            },
        };
        let mut free: Vfs<F> = Vfs::null();
        free.handle = m;
        self.mounts[m] = free;
        self.nodes[covered].uncover();
        proof {
            assert(old(self).node_wf(covered as int));
            assert forall|k: int| 0 <= k < self.mounts.len() implies #[trigger] self.mount_wf(
                k,
            ) by {
                assert(old(self).mount_wf(k));
                if k != m && old(self).mounts[k].live() && k > 0 {
                    let c = old(self).mounts[k].vnode_covered->Some_0;
                    assert(old(self).node_wf(c as int));
                    assert(c != covered);
                }
            }
            assert forall|n: int| 0 <= n < self.nodes.len() implies #[trigger] self.node_wf(n) by {
                assert(old(self).node_wf(n));
                if n != covered {
                    let h = old(self).nodes[n].vnode.vfs_mounted_here;
                    if h is Some {
                        assert(old(self).live(h->Some_0 as int));
                        assert(h->Some_0 != m);
                    }
                }
            }
            assert forall|a: int, b: int|
                #[trigger] self.live(a) && #[trigger] self.live(b) && a != b implies self.mounts[a].path()
                != self.mounts[b].path() by {
                assert(old(self).live(a) && old(self).live(b));
            }
            assert forall|q: Seq<u8>| self.mounted(q) <==> (old(self).mounted(q) && q != path@) by {
                if self.mounted(q) {
                    let k = choose|k: int| #[trigger] self.live(k) && self.mounts[k].path() == q;
                    assert(old(self).live(k));
                    assert(old(self).live(m as int));
                }
                if old(self).mounted(q) && q != path@ {
                    let k = choose|k: int| #[trigger]
                        old(self).live(k) && old(self).mounts[k].path() == q;
                    assert(self.live(k));
                }
            }
            assert(self.mounts[0] == old(self).mounts[0]);
            assert(old(self).live(m as int) && old(self).mounts[m as int].path() == path@
                && self.mount_removed(old(self), m));
        }
    }
}

/// Whether the mount at the normalized path `mount_point` is busy: whether
/// the path of some other mount lies below it. Paths are compared segment by
/// segment, so `/mnt2` does not lie below `/mnt`.
pub fn mount_point_busy<F: FsOps>(ctx: &VfsContext<F>, mount_point: &[u8]) -> (r: bool) where
    F::Node: VNodeOperations<F>,

    ensures
        r == ctx.busy(mount_point@),
{
    let mount_parts = split_path(mount_point);
    let mut m: usize = 0;
    while m < ctx.mounts.len()
        invariant
            m <= ctx.mounts.len(),
            views(mount_parts@) == segments(mount_point@),
            forall|k: int|
                0 <= k < m ==> !(#[trigger] ctx.live(k) && ctx.mounts[k].path() != mount_point@
                    && is_below(segments(mount_point@), segments(ctx.mounts[k].path()))),
        decreases ctx.mounts.len() - m,
    {
        if ctx.mounts[m].fs.is_some() {
            match &ctx.mounts[m].mount_point {
                Some(p) => {
                    // a mount does not keep itself busy
                    if !crate::libs::bytes::bytes_eq(p.as_slice(), mount_point) {
                        let parts = split_path(p.as_slice());
                        if segments_below(&mount_parts, &parts) {
                            assert(ctx.live(m as int));
                            return true;
                        }
                    }
                },
                None => {},
            }
        }
        m += 1;
    }
    false
}

/// What the backend said of a mount, going by what the mount came to:
/// `None` where the backend was not what stopped it.
pub open spec fn backend_outcome(r: Result<(), MountError>) -> Option<Result<(), VfsError>> {
    match r {
        Ok(_) => Some(Ok(())),
        Err(MountError::Backend(e)) => Some(Err(e)),
        Err(_) => None,
    }
}

/// Mounts the file system `fs_ops` at `mount_point`.
///
/// The path is normalized first. The mount table decides what can be
/// mounted where (see [`VfsContext::mount_check`]): a second root mount, a
/// mount without a root, and a second mount at one path are refused, and
/// then nothing changes.
///
/// For the root mount the backend is asked for its root directory, which
/// becomes the root of the cache. For any other mount the path is resolved
/// through the cache: it has to lead to an entry that is not the root and
/// not covered yet; the mount then covers that entry. In both cases the
/// backend's `mount` is called last, and a backend that fails leaves the
/// mount table as it was.
///
/// Once the mount table agrees, only three things stop a mount: a path
/// that does not resolve (`TargetNotFound`), a path that leads to the root
/// or to an entry that is covered already (`AlreadyMounted`), and the
/// backend (`Backend`). [`VfsContext::added`] says exactly what is asked of
/// the backend, what each answer comes to, and what the namespace is
/// afterwards.
pub fn add_vfs<F: FsOps>(ctx: &mut VfsContext<F>, mount_point: &str, fs_ops: F) -> (r: Result<
    (),
    MountError,
>) where F::Node: VNodeOperations<F>
    requires
        old(ctx).wf(),
        fs_ops.wf(),
    ensures
        final(ctx).wf(),
        old(ctx).mount_check(normalize(mount_point.spec_bytes())) is Err ==> r == old(
            ctx,
        ).mount_check(normalize(mount_point.spec_bytes())) && *final(ctx) == *old(ctx),
        r is Ok ==> forall|q: Seq<u8>|
            final(ctx).mounted(q) <==> (old(ctx).mounted(q) || q == normalize(
                mount_point.spec_bytes(),
            )),
        r is Ok && normalize(mount_point.spec_bytes()) == root_path() ==> final(ctx).nodes.len()
            == 1,
        r is Ok && normalize(mount_point.spec_bytes()) != root_path() ==> final(ctx).walk(
            segments(normalize(mount_point.spec_bytes())),
        ) is Some && final(ctx).nodes[final(ctx).walk(
            segments(normalize(mount_point.spec_bytes())),
        )->Some_0 as int].vnode.vfs_mounted_here == Some(old(ctx).mounts.len()),
        r is Err ==> final(ctx).same_mounts(old(ctx)) && final(ctx).grows_from(old(ctx)),
        r is Err && normalize(mount_point.spec_bytes()) == root_path() ==> *final(ctx) == *old(
            ctx,
        ),
        old(ctx).mount_check(normalize(mount_point.spec_bytes())) is Ok && r is Err ==> r->Err_0
            is Backend || (normalize(mount_point.spec_bytes()) != root_path() && (r->Err_0
            == MountError::TargetNotFound || r->Err_0 == MountError::AlreadyMounted)),
        r == Err::<(), MountError>(MountError::TargetNotFound) ==> final(ctx).walk(
            segments(normalize(mount_point.spec_bytes())),
        ) is None,
        final(ctx).added(old(ctx), normalize(mount_point.spec_bytes()), fs_ops, r),
        r is Ok ==> final(ctx).mounts.len() == old(ctx).mounts.len() + 1 && forall|k: int|
            0 <= k < old(ctx).mounts.len() ==> (#[trigger] final(ctx).mounts[k]).same_mount(
                &old(ctx).mounts[k],
            ),
{
    let path = normalize_path(mount_point.as_bytes());
    match ctx.check_mount(path.as_slice()) {
        Ok(()) => {},
        Err(e) => {
            return Err(e);
        },
    }
    let is_root = path.len() == 1 && path[0] == SEPARATOR;
    assert(is_root == (path@ == root_path())) by {
        if is_root {
            assert(path@ =~= root_path());
        }
    }
    if is_root {
        add_root(ctx, path.as_slice(), fs_ops)
    } else {
        add_over(ctx, path.as_slice(), fs_ops)
    }
}

/// Mounts the file system `fs_ops` as the root of a namespace that has
/// none; see [`VfsContext::root_tried`].
fn add_root<F: FsOps>(ctx: &mut VfsContext<F>, path: &[u8], fs_ops: F) -> (r: Result<
    (),
    MountError,
>) where F::Node: VNodeOperations<F>
    requires
        old(ctx).wf(),
        fs_ops.wf(),
        path@ == root_path(),
        !old(ctx).has_root(),
    ensures
        final(ctx).wf(),
        final(ctx).root_tried(old(ctx), fs_ops, r),
        r is Ok ==> final(ctx).mounts.len() == 1,
        r is Ok ==> final(ctx).nodes.len() == 1 && forall|q: Seq<u8>|
            final(ctx).mounted(q) <==> q == root_path(),
        r is Err ==> *final(ctx) == *old(ctx) && r->Err_0 is Backend,
{
    let mut vfs = Vfs::new(fs_ops, path);
    let rooted = vfs.root();
    let ghost mid = vfs.fs->Some_0;
    assert(fs_ops.root_result(0, &mid, rooted));
    let root = match rooted {
        Ok(root) => root,
        Err(e) => {
            return Err(MountError::Backend(e));
        },
    };
    let mounted = vfs.mount(path);
    let ghost after = vfs.fs->Some_0;
    assert(mid.mount_result(path@, 0, &after, mounted));
    match mounted {
        Ok(()) => {},
        Err(e) => {
            proof {
                assert(ctx.told(old(ctx), mid, root_path(), 0, Err(MountError::Backend(e))));
            }
            return Err(MountError::Backend(e));
        },
    }
    ctx.install_root(vfs, root);
    proof {
        assert(mounted->Ok_0 == ());
        assert(ctx.mounts@[0] == vfs);
        assert(ctx.told(old(ctx), mid, root_path(), 0, Ok::<(), MountError>(())));
        assert(ctx.root_added(after, root));
    }
    Ok(())
}

/// Mounts the file system `fs_ops` at a path other than the root; see
/// [`VfsContext::mount_tried`].
fn add_over<F: FsOps>(ctx: &mut VfsContext<F>, path: &[u8], fs_ops: F) -> (r: Result<
    (),
    MountError,
>) where F::Node: VNodeOperations<F>
    requires
        old(ctx).wf(),
        fs_ops.wf(),
        path@ != root_path(),
        old(ctx).has_root(),
        !old(ctx).mounted(path@),
    ensures
        final(ctx).wf(),
        final(ctx).mount_tried(old(ctx), path@, fs_ops, r),
        r is Ok ==> final(ctx).mounts.len() == old(ctx).mounts.len() + 1 && forall|k: int|
            0 <= k < old(ctx).mounts.len() ==> (#[trigger] final(ctx).mounts[k]).same_mount(
                &old(ctx).mounts[k],
            ),
        r is Ok ==> forall|q: Seq<u8>|
            final(ctx).mounted(q) <==> (old(ctx).mounted(q) || q == path@),
        r is Ok ==> final(ctx).walk(segments(path@)) is Some && final(ctx).nodes[final(ctx).walk(
            segments(path@),
        )->Some_0 as int].vnode.vfs_mounted_here == Some(old(ctx).mounts.len()),
        r is Err ==> final(ctx).same_mounts(old(ctx)) && final(ctx).grows_from(old(ctx)),
        r is Err ==> r->Err_0 is Backend || r->Err_0 == MountError::TargetNotFound || r->Err_0
            == MountError::AlreadyMounted,
        r == Err::<(), MountError>(MountError::TargetNotFound) ==> final(ctx).walk(
            segments(path@),
        ) is None,
{
    let mut vfs = Vfs::new(fs_ops, path);
    let found = open_path(ctx, path);
    let ghost resolved = *ctx;
    assert(resolved.resolution(old(ctx), segments(path@), found));
    let target = match found {
        Ok(target) => target,
        Err(_) => {
            return Err(MountError::TargetNotFound);
        },
    };
    if target == 0 || ctx.nodes[target].vnode.vfs_mounted_here.is_some() {
        return Err(MountError::AlreadyMounted);
    }
    proof {
        assert forall|q: Seq<u8>| resolved.mounted(q) <==> old(ctx).mounted(q) by {
            if resolved.mounted(q) {
                let m = choose|m: int| #[trigger]
                    resolved.live(m) && resolved.mounts[m].path() == q;
                assert(resolved.mounts[m].same_mount(&old(ctx).mounts[m]));
                assert(old(ctx).live(m));
            }
            if old(ctx).mounted(q) {
                let m = choose|m: int| #[trigger]
                    old(ctx).live(m) && old(ctx).mounts[m].path() == q;
                assert(resolved.mounts[m].same_mount(&old(ctx).mounts[m]));
                assert(resolved.live(m));
            }
        }
    }
    vfs.handle = ctx.mounts.len();
    let mounted = vfs.mount(path);
    let ghost after = vfs.fs->Some_0;
    assert(fs_ops.mount_result(path@, old(ctx).mounts.len(), &after, mounted));
    match mounted {
        Ok(()) => {},
        Err(e) => {
            proof {
                assert(ctx.told(
                    &resolved,
                    fs_ops,
                    path@,
                    old(ctx).mounts.len(),
                    Err(MountError::Backend(e)),
                ));
            }
            return Err(MountError::Backend(e));
        },
    }
    ctx.install_mount(vfs, target);
    proof {
        lemma_cover_keeps_walk(&resolved, ctx, segments(path@), target);
        assert(mounted->Ok_0 == ());
        assert(ctx.told(
            &resolved,
            fs_ops,
            path@,
            old(ctx).mounts.len(),
            Ok::<(), MountError>(()),
        ));
        assert(ctx.mount_added(&resolved, after, path@, target));
    }
    Ok(())
}

/// Covering an entry leaves the way to it as it was.
pub proof fn lemma_cover_keeps_walk<F: FsOps>(
    before: &VfsContext<F>,
    after: &VfsContext<F>,
    segs: Seq<Seq<u8>>,
    target: usize,
) where F::Node: VNodeOperations<F>
    requires
        before.wf(),
        before.walk(segs) == Some(target),
        after.nodes.len() == before.nodes.len(),
        forall|n: int|
            0 <= n < before.nodes.len() && n != target ==> (#[trigger] after.nodes[n])
                == before.nodes[n],
    ensures
        after.walk(segs) == Some(target),
    decreases segs.len(),
{
    if segs.len() > 0 {
        let p = before.walk(segs.drop_last())->Some_0;
        before.lemma_walk_in_bounds(segs.drop_last());
        assert(before.node_wf(p as int));
        lemma_find_child_is_entry(before.nodes[p as int].children@, segs.last(), 0);
        assert(p < target);
        lemma_walk_below(before, after, segs.drop_last(), target);
    }
}

/// A walk that ends before `target` does not pass through it, so changing
/// `target` leaves the walk as it was.
pub proof fn lemma_walk_below<F: FsOps>(
    before: &VfsContext<F>,
    after: &VfsContext<F>,
    segs: Seq<Seq<u8>>,
    target: usize,
) where F::Node: VNodeOperations<F>
    requires
        before.wf(),
        before.walk(segs) is Some,
        before.walk(segs)->Some_0 < target,
        after.nodes.len() == before.nodes.len(),
        forall|n: int|
            0 <= n < before.nodes.len() && n != target ==> (#[trigger] after.nodes[n])
                == before.nodes[n],
    ensures
        after.walk(segs) == before.walk(segs),
    decreases segs.len(),
{
    if segs.len() > 0 {
        let p = before.walk(segs.drop_last())->Some_0;
        before.lemma_walk_in_bounds(segs.drop_last());
        assert(before.node_wf(p as int));
        lemma_find_child_is_entry(before.nodes[p as int].children@, segs.last(), 0);
        lemma_walk_below(before, after, segs.drop_last(), target);
    }
}

/// Removes the mount at `mount_point`.
///
/// The path is normalized first. The root mount can be removed only while
/// it is the only mount; the cache goes with it. Any other mount can be
/// removed unless it is busy (see [`VfsContext::busy`]); the entry that it
/// covered is uncovered. Removing a path at which nothing is mounted, and
/// below which nothing is mounted, changes nothing and succeeds. Without a
/// root mount there is nothing to remove: `NoRoot`.
pub fn del_vfs<F: FsOps>(ctx: &mut VfsContext<F>, mount_point: &str) -> (r: Result<
    (),
    MountError,
>) where F::Node: VNodeOperations<F>
    requires
        old(ctx).wf(),
    ensures
        final(ctx).wf(),
        !old(ctx).has_root() ==> r == Err::<(), MountError>(MountError::NoRoot),
        old(ctx).has_root() && normalize(mount_point.spec_bytes()) == root_path() ==> (r is Ok
            <==> old(ctx).only_root()),
        old(ctx).has_root() && normalize(mount_point.spec_bytes()) != root_path() ==> (r is Err
            <==> old(ctx).busy(normalize(mount_point.spec_bytes()))),
        r is Err && old(ctx).has_root() ==> r == Err::<(), MountError>(MountError::Busy),
        r is Err ==> *final(ctx) == *old(ctx),
        r is Ok && normalize(mount_point.spec_bytes()) == root_path() ==> final(ctx).mounts.len()
            == 0 && final(ctx).nodes.len() == 0,
        r is Ok && normalize(mount_point.spec_bytes()) != root_path() ==> final(ctx).has_root()
            && forall|q: Seq<u8>|
            final(ctx).mounted(q) <==> (old(ctx).mounted(q) && q != normalize(
                mount_point.spec_bytes(),
            )),
        r is Ok && normalize(mount_point.spec_bytes()) != root_path() ==> final(ctx).removed(
            old(ctx),
            normalize(mount_point.spec_bytes()),
        ),
{
    if ctx.mounts.len() == 0 {
        return Err(MountError::NoRoot);
    }
    let path = normalize_path(mount_point.as_bytes());
    let is_root = path.len() == 1 && path[0] == SEPARATOR;
    assert(is_root == (path@ == root_path())) by {
        if is_root {
            assert(path@ =~= root_path());
        }
    }

    if is_root {
        if ctx.has_other_mounts() {
            // mount point is 'busy'
            return Err(MountError::Busy);
        }
        ctx.mounts.clear();
        ctx.nodes.clear();
    } else {
        if mount_point_busy(ctx, path.as_slice()) {
            return Err(MountError::Busy);
        }
        ctx.remove_mount(path.as_slice());
    }

    Ok(())
}

impl<F: FsOps> VfsContext<F> where F::Node: VNodeOperations<F> {
    /// What a resolution of `path` may make of the namespace `pre`: the
    /// namespace `post` and the result `r`.
    ///
    /// The mounts stay and the cache only grows. A path that the cache
    /// resolves already is answered from the cache, and nothing changes. A
    /// path that resolves is resolved by the cache from then on.
    pub open spec fn open_outcome(
        pre: &Self,
        path: Seq<u8>,
        post: &Self,
        r: Result<usize, VfsError>,
    ) -> bool {
        &&& post.wf()
        &&& post.same_mounts(pre)
        &&& post.grows_from(pre)
        &&& pre.walk(segments(path)) is Some ==> r == Ok::<usize, VfsError>(
            pre.walk(segments(path))->Some_0,
        ) && *post == *pre
        &&& r is Ok ==> post.walk(segments(path)) == Some(r->Ok_0)
    }

    /// Opening one path twice leads to the same cache entry both times, and
    /// the second time nothing is resolved anew: the namespace stays as the
    /// first opening left it.
    pub proof fn lemma_open_twice(
        first: &Self,
        second: &Self,
        third: &Self,
        path: Seq<u8>,
        r1: Result<usize, VfsError>,
        r2: Result<usize, VfsError>,
    )
        requires
            first.wf(),
            Self::open_outcome(first, path, second, r1),
            Self::open_outcome(second, path, third, r2),
            r1 is Ok,
        ensures
            r2 == r1,
            *third == *second,
    {
    }

    /// An entry that a path once led to is the entry it leads to after any
    /// number of further resolutions, of this path or of others.
    pub proof fn lemma_open_later(
        first: &Self,
        later: &Self,
        last: &Self,
        path: Seq<u8>,
        entry: usize,
        r: Result<usize, VfsError>,
    )
        requires
            first.wf(),
            later.wf(),
            first.walk(segments(path)) == Some(entry),
            later.grows_from(first),
            Self::open_outcome(later, path, last, r),
        ensures
            r == Ok::<usize, VfsError>(entry),
            *last == *later,
    {
        later.lemma_walk_grows(first, segments(path));
    }

    /// Whether the namespace holds what `old` holds: the same mounts and the
    /// same cache entries, in the same state.
    pub open spec fn same_state(&self, old: &Self) -> bool {
        self.mounts@ == old.mounts@ && self.nodes@ == old.nodes@
    }

    /// The backend that serves the cache entry `entry`, if the entry exists
    /// and its mount has not been removed.
    pub open spec fn backend_of(&self, entry: usize) -> Option<F> {
        if entry < self.nodes.len() && self.nodes[entry as int].vnode.parent_vfs
            < self.mounts.len() {
            self.mounts[self.nodes[entry as int].vnode.parent_vfs as int].fs
        } else {
            None
        }
    }

    /// Whether the namespace is that of `old` but for what an operation on
    /// one node may change: the backends' own state and data, and how often
    /// nodes are open.
    pub open spec fn same_shape(&self, old: &Self) -> bool {
        &&& self.same_mounts(old)
        &&& self.nodes.len() == old.nodes.len()
        &&& forall|n: int|
            0 <= n < self.nodes.len() ==> {
                &&& (#[trigger] self.nodes[n]).index == old.nodes[n].index
                &&& self.nodes[n].parent == old.nodes[n].parent
                &&& self.nodes[n].children == old.nodes[n].children
                &&& self.nodes[n].vnode.parent_vfs == old.nodes[n].vnode.parent_vfs
                &&& self.nodes[n].vnode.vfs_mounted_here == old.nodes[n].vnode.vfs_mounted_here
            }
    }

    /// An operation on one node keeps the namespace well formed.
    pub proof fn lemma_same_shape_wf(&self, old: &Self)
        requires
            old.wf(),
            self.same_shape(old),
            forall|m: int| 0 <= m < self.mounts.len() ==> (#[trigger] self.mounts[m]).wf(),
        ensures
            self.wf(),
            forall|q: Seq<u8>| self.mounted(q) <==> old.mounted(q),
    {
        assert forall|n: int| 0 <= n < self.nodes.len() implies #[trigger] self.node_wf(n) by {
            assert(old.node_wf(n));
            let m = old.nodes[n].vnode.vfs_mounted_here;
            if m is Some {
                assert(self.mounts[m->Some_0 as int].same_mount(&old.mounts[m->Some_0 as int]));
            }
        }
        assert forall|m: int| 0 <= m < self.mounts.len() implies #[trigger] self.mount_wf(m) by {
            assert(old.mount_wf(m));
            assert(self.mounts[m].same_mount(&old.mounts[m]));
        }
        assert forall|a: int, b: int|
            #[trigger] self.live(a) && #[trigger] self.live(b) && a != b implies self.mounts[a].path()
            != self.mounts[b].path() by {
            assert(self.mounts[a].same_mount(&old.mounts[a]));
            assert(self.mounts[b].same_mount(&old.mounts[b]));
            assert(old.live(a) && old.live(b));
        }
        assert(self.mounts[0].same_mount(&old.mounts[0]) || self.mounts.len() == 0);
        assert forall|q: Seq<u8>| self.mounted(q) <==> old.mounted(q) by {
            if self.mounted(q) {
                let m = choose|m: int| #[trigger] self.live(m) && self.mounts[m].path() == q;
                assert(self.mounts[m].same_mount(&old.mounts[m]));
                assert(old.live(m));
            }
            if old.mounted(q) {
                let m = choose|m: int| #[trigger] old.live(m) && old.mounts[m].path() == q;
                assert(self.mounts[m].same_mount(&old.mounts[m]));
                assert(self.live(m));
            }
        }
    }

    /// The cache entry with the handle `entry`, if there is one.
    pub fn node(&self, entry: usize) -> (r: Option<&TreeNode<F::Node>>)
        ensures
            match r {
                Some(node) => entry < self.nodes.len() && *node == self.nodes[entry as int],
                None => entry >= self.nodes.len(),
            },
    {
        if entry < self.nodes.len() {
            Some(&self.nodes[entry])
        } else {
            None
        }
    }

    /// The length of the file behind the cache entry `entry`; `NotFound`
    /// where there is no such entry.
    pub fn len_node(&self, entry: usize) -> (r: Result<usize, VfsError>)
        ensures
            match r {
                Ok(n) => entry < self.nodes.len() && n == self.nodes[entry as int].vnode.inode.spec_len(),
                Err(e) => entry >= self.nodes.len() && e == VfsError::NotFound,
            },
    {
        if entry < self.nodes.len() {
            Ok(self.nodes[entry].len::<F>())
        } else {
            Err(VfsError::NotFound)
        }
    }

    /// Reads from the file behind the cache entry `entry`, through the
    /// backend that serves it. `NotFound` where the entry does not exist or
    /// its mount is gone.
    pub fn read_node(&mut self, entry: usize, count: usize, offset: usize, f: u32) -> (r: Result<
        Vec<u8>,
        VfsError,
    >)
        requires
            old(self).wf(),
        ensures
            final(self).wf(),
            final(self).same_shape(old(self)),
            match old(self).backend_of(entry) {
                Some(fs) => {
                    let inode = old(self).nodes[entry as int].vnode.inode;
                    &&& read_in_range(inode.spec_len(), count, offset) ==> inode.read_result(
                        &fs,
                        count,
                        offset,
                        view_bytes(r),
                    )
                    &&& !read_in_range(inode.spec_len(), count, offset) ==> r is Err && r->Err_0
                        == VfsError::IoFailure && final(self).same_state(old(self))
                },
                None => r is Err && r->Err_0 == VfsError::NotFound && final(self).same_state(old(self)),
            },
    {
        if entry >= self.nodes.len() {
            return Err(VfsError::NotFound);
        }
        let m = self.nodes[entry].vnode.parent_vfs;
        if m >= self.mounts.len() {
            return Err(VfsError::NotFound);
        }
        assert(self.mount_wf(m as int));
        if self.mounts[m].fs.is_none() {
            return Err(VfsError::NotFound);
        }
        let r = match &mut self.mounts[m].fs {
            Some(fs) => self.nodes[entry].read(fs, count, offset, f),
            None => Err(VfsError::NotFound),
        };
        proof {
            assert forall|k: int| 0 <= k < self.mounts.len() implies (#[trigger] self.mounts[k]).wf() by {
                assert(old(self).mount_wf(k));
            }
            self.lemma_same_shape_wf(old(self));
            if !read_in_range(
                old(self).nodes[entry as int].vnode.inode.spec_len(),
                count,
                offset,
            ) {
                assert(self.mounts@ =~= old(self).mounts@);
                assert(self.nodes@ =~= old(self).nodes@);
            }
        }
        r
    }

    /// Writes to the file behind the cache entry `entry`, through the
    /// backend that serves it. `NotFound` where the entry does not exist or
    /// its mount is gone.
    pub fn write_node(&mut self, entry: usize, offset: usize, buf: &[u8], f: u32) -> (r: Result<
        (),
        VfsError,
    >)
        requires
            old(self).wf(),
        ensures
            final(self).wf(),
            final(self).same_shape(old(self)),
            match old(self).backend_of(entry) {
                Some(fs) => !old(self).nodes[entry as int].vnode.inode.supports(VNodeOp::Write)
                    ==> r == Err::<(), VfsError>(VfsError::Unsupported) && final(self).same_state(old(self)),
                None => r == Err::<(), VfsError>(VfsError::NotFound) && final(self).same_state(old(self)),
            },
    {
        if entry >= self.nodes.len() {
            return Err(VfsError::NotFound);
        }
        let m = self.nodes[entry].vnode.parent_vfs;
        if m >= self.mounts.len() {
            return Err(VfsError::NotFound);
        }
        assert(self.mount_wf(m as int));
        if self.mounts[m].fs.is_none() {
            return Err(VfsError::NotFound);
        }
        let r = match &mut self.mounts[m].fs {
            Some(fs) => self.nodes[entry].write(fs, offset, buf, f),
            None => Err(VfsError::NotFound),
        };
        proof {
            assert forall|k: int| 0 <= k < self.mounts.len() implies (#[trigger] self.mounts[k]).wf() by {
                assert(old(self).mount_wf(k));
            }
            self.lemma_same_shape_wf(old(self));
            if !old(self).nodes[entry as int].vnode.inode.supports(VNodeOp::Write) {
                assert(self.mounts@ =~= old(self).mounts@);
                assert(self.nodes@ =~= old(self).nodes@);
            }
        }
        r
    }

    /// Opens the file behind the cache entry `entry`; see
    /// [`TreeNode::open`]. `NotFound` where the entry does not exist or its
    /// mount is gone.
    pub fn open_node(&mut self, entry: usize, f: u32, c: UserCred) -> (r: Result<File, VfsError>)
        requires
            old(self).wf(),
        ensures
            final(self).wf(),
            final(self).same_shape(old(self)),
            forall|n: int|
                0 <= n < old(self).nodes.len() && n != entry ==> (#[trigger] final(self).nodes[n])
                    == old(self).nodes[n],
            match old(self).backend_of(entry) {
                Some(fs) => {
                    let before = old(self).nodes[entry as int].vnode;
                    let after = final(self).nodes[entry as int].vnode;
                    &&& r is Ok ==> r->Ok_0.descriptor == entry && r->Ok_0.user_cred == c
                        && after.ref_count == before.ref_count + 1
                    &&& r is Err ==> after.ref_count == before.ref_count
                    &&& before.ref_count == 0 ==> before.inode.open_result(
                        &fs,
                        f,
                        c,
                        match r {
                            Ok(_) => Ok(()),
                            Err(e) => Err(e),
                        },
                    )
                    &&& 0 < before.ref_count < u32::MAX ==> r is Ok && after.inode == before.inode
                        && final(self).mounts@ == old(self).mounts@
                    &&& before.ref_count == u32::MAX ==> r is Err && r->Err_0 == VfsError::IoFailure
                        && final(self).same_state(old(self))
                },
                None => r is Err && r->Err_0 == VfsError::NotFound && final(self).same_state(old(self)),
            },
    {
        if entry >= self.nodes.len() {
            return Err(VfsError::NotFound);
        }
        let m = self.nodes[entry].vnode.parent_vfs;
        if m >= self.mounts.len() {
            return Err(VfsError::NotFound);
        }
        assert(self.mount_wf(m as int));
        assert(self.node_wf(entry as int));
        if self.mounts[m].fs.is_none() {
            return Err(VfsError::NotFound);
        }
        let r = match &mut self.mounts[m].fs {
            Some(fs) => self.nodes[entry].open(fs, f, c),
            None => Err(VfsError::NotFound),
        };
        proof {
            assert forall|k: int| 0 <= k < self.mounts.len() implies (#[trigger] self.mounts[k]).wf() by {
                assert(old(self).mount_wf(k));
            }
            self.lemma_same_shape_wf(old(self));
            let before = old(self).nodes[entry as int].vnode;
            if before.ref_count > 0 {
                assert(self.mounts@ =~= old(self).mounts@);
            }
            if before.ref_count == u32::MAX {
                assert(self.nodes@ =~= old(self).nodes@);
            }
        }
        r
    }

    /// Takes back one opening of the file behind the cache entry `entry`;
    /// see [`TreeNode::close`]. `NotFound` where the entry does not exist or
    /// its mount is gone.
    pub fn close_node(&mut self, entry: usize, f: u32, c: UserCred) -> (r: Result<(), VfsError>)
        requires
            old(self).wf(),
        ensures
            final(self).wf(),
            final(self).same_shape(old(self)),
            forall|n: int|
                0 <= n < old(self).nodes.len() && n != entry ==> (#[trigger] final(self).nodes[n])
                    == old(self).nodes[n],
            match old(self).backend_of(entry) {
                Some(fs) => {
                    let before = old(self).nodes[entry as int].vnode;
                    let after = final(self).nodes[entry as int].vnode;
                    &&& before.ref_count == 0 ==> r == Err::<(), VfsError>(VfsError::IoFailure)
                        && final(self).same_state(old(self))
                    &&& before.ref_count > 0 ==> after.ref_count == before.ref_count - 1
                    &&& before.ref_count == 1 ==> before.inode.close_result(&fs, f, c, r)
                    &&& before.ref_count > 1 ==> r is Ok && after.inode == before.inode && final(self).mounts@ == old(self).mounts@
                },
                None => r == Err::<(), VfsError>(VfsError::NotFound) && final(self).same_state(old(self)),
            },
    {
        if entry >= self.nodes.len() {
            return Err(VfsError::NotFound);
        }
        let m = self.nodes[entry].vnode.parent_vfs;
        if m >= self.mounts.len() {
            return Err(VfsError::NotFound);
        }
        assert(self.mount_wf(m as int));
        if self.mounts[m].fs.is_none() {
            return Err(VfsError::NotFound);
        }
        let r = match &mut self.mounts[m].fs {
            Some(fs) => self.nodes[entry].close(fs, f, c),
            None => Err(VfsError::NotFound),
        };
        proof {
            assert forall|k: int| 0 <= k < self.mounts.len() implies (#[trigger] self.mounts[k]).wf() by {
                assert(old(self).mount_wf(k));
            }
            self.lemma_same_shape_wf(old(self));
            let before = old(self).nodes[entry as int].vnode;
            if before.ref_count != 1 {
                assert(self.mounts@ =~= old(self).mounts@);
            }
            if before.ref_count == 0 {
                assert(self.nodes@ =~= old(self).nodes@);
            }
        }
        r
    }
}

/// How many bytes a read through an open file asks its node for: `count`,
/// or, where `count` is 0, all that lies between `offset` and the end of
/// the file.
pub open spec fn bytes_asked(len: usize, count: usize, offset: usize) -> int {
    if count == 0 {
        len - offset
    } else {
        count as int
    }
}

impl File {
    /// Reads `count` bytes at `offset`; a `count` of 0 stands for all bytes
    /// from `offset` to the end of the file. `IoFailure` where `offset` lies
    /// past the end.
    pub fn read<F: FsOps>(
        &mut self,
        ctx: &mut VfsContext<F>,
        count: usize,
        offset: usize,
        f: u32,
    ) -> (r: Result<Vec<u8>, VfsError>) where F::Node: VNodeOperations<F>
        requires
            old(ctx).wf(),
        ensures
            final(ctx).wf(),
            final(ctx).same_shape(old(ctx)),
            *final(self) == *old(self),
            match old(ctx).backend_of(old(self).descriptor) {
                Some(fs) => {
                    let inode = old(ctx).nodes[old(self).descriptor as int].vnode.inode;
                    let asked = bytes_asked(inode.spec_len(), count, offset);
                    &&& offset < inode.spec_len() && offset + asked <= inode.spec_len()
                        ==> inode.read_result(&fs, asked as usize, offset, view_bytes(r))
                    &&& !(offset < inode.spec_len() && offset + asked <= inode.spec_len()) ==> r
                        is Err && r->Err_0 == VfsError::IoFailure && final(ctx).same_state(old(ctx))
                },
                None => r is Err && r->Err_0 == VfsError::NotFound && final(ctx).same_state(old(ctx)),
            },
    {
        let mut count = count;
        if count == 0 {
            let len = match self.len(ctx) {
                Ok(len) => len,
                Err(e) => {
                    return Err(e);
                },
            };
            if offset > len {
                assert(ctx.node_wf(self.descriptor as int));
                if ctx.mounts[ctx.nodes[self.descriptor].vnode.parent_vfs].fs.is_some() {
                    return Err(VfsError::IoFailure);
                }
                return Err(VfsError::NotFound);
            }
            count = len - offset;
        }
        ctx.read_node(self.descriptor, count, offset, f)
    }

    /// Writes `buf` at `offset`.
    pub fn write<F: FsOps>(&mut self, ctx: &mut VfsContext<F>, offset: usize, buf: &[u8], f: u32) -> (r:
        Result<(), VfsError>) where F::Node: VNodeOperations<F>
        requires
            old(ctx).wf(),
        ensures
            final(ctx).wf(),
            final(ctx).same_shape(old(ctx)),
            *final(self) == *old(self),
            match old(ctx).backend_of(old(self).descriptor) {
                Some(fs) => !old(ctx).nodes[old(self).descriptor as int].vnode.inode.supports(
                    VNodeOp::Write,
                ) ==> r == Err::<(), VfsError>(VfsError::Unsupported) && final(ctx).same_state(old(ctx)),
                None => r == Err::<(), VfsError>(VfsError::NotFound) && final(ctx).same_state(old(ctx)),
            },
    {
        ctx.write_node(self.descriptor, offset, buf, f)
    }

    /// The length of the file in bytes; `NotFound` where the cache entry
    /// that the file was opened on is gone.
    pub fn len<F: FsOps>(&self, ctx: &VfsContext<F>) -> (r: Result<usize, VfsError>) where
        F::Node: VNodeOperations<F>,

        ensures
            match r {
                Ok(n) => self.descriptor < ctx.nodes.len() && n
                    == ctx.nodes[self.descriptor as int].vnode.inode.spec_len(),
                Err(e) => self.descriptor >= ctx.nodes.len() && e == VfsError::NotFound,
            },
    {
        ctx.len_node(self.descriptor)
    }

    /// Closes the file: takes back the opening that made it, with the
    /// credentials it was opened with.
    pub fn close<F: FsOps>(self, ctx: &mut VfsContext<F>) -> (r: Result<(), VfsError>) where
        F::Node: VNodeOperations<F>,

        requires
            old(ctx).wf(),
        ensures
            final(ctx).wf(),
            final(ctx).same_shape(old(ctx)),
            match old(ctx).backend_of(self.descriptor) {
                Some(fs) => {
                    let before = old(ctx).nodes[self.descriptor as int].vnode;
                    let after = final(ctx).nodes[self.descriptor as int].vnode;
                    &&& before.ref_count == 0 ==> r == Err::<(), VfsError>(VfsError::IoFailure)
                        && final(ctx).same_state(old(ctx))
                    &&& before.ref_count > 0 ==> after.ref_count == before.ref_count - 1
                    &&& before.ref_count == 1 ==> before.inode.close_result(
                        &fs,
                        0,
                        self.user_cred,
                        r,
                    )
                    &&& before.ref_count > 1 ==> r is Ok && after.inode == before.inode && final(ctx).mounts@ == old(ctx).mounts@
                },
                None => r == Err::<(), VfsError>(VfsError::NotFound) && final(ctx).same_state(old(ctx)),
            },
    {
        let cred = self.user_cred;
        ctx.close_node(self.descriptor, 0, cred)
    }
}

} // verus!
