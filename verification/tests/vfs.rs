use kernel::arch::x86_64::stack_trace::get_function_name;
use kernel::drivers::fs::backend::{Backend, BackendNode};
use kernel::drivers::fs::fat::FatFs;
use kernel::drivers::fs::initramfs::inode::{Inode, InodeFileType};
use kernel::drivers::fs::initramfs::{init, Squashfs};
use kernel::drivers::fs::vfs::{
    add_vfs, del_vfs, mount_point_busy, normalize_path, split_path, vfs_open, FsOps, MountError,
    TreeNode, UserCred, VNodeType, Vfs, VfsContext, VfsError,
};
use kernel::drivers::storage::RamDisk;
use kernel::libs::gzip::Gzip;

const ABSENT: u64 = u64::MAX;

const HELLO_WORLD: [u8; 19] = [
    0x78, 0xda, 0xcb, 0x48, 0xcd, 0xc9, 0xc9, 0x57, 0x28, 0xcf, 0x2f, 0xca, 0x49, 0x01, 0x00,
    0x1a, 0x0b, 0x04, 0x5d,
];

const ROOT: UserCred = UserCred { uid: 0, gid: 0 };

fn stored(payload: &[u8]) -> Vec<u8> {
    let mut chunk = ((payload.len() as u16) | 0x8000).to_le_bytes().to_vec();
    chunk.extend_from_slice(payload);
    chunk
}

fn compressed(stream: &[u8]) -> Vec<u8> {
    let mut chunk = (stream.len() as u16).to_le_bytes().to_vec();
    chunk.extend_from_slice(stream);
    chunk
}

fn inode_header(kind: u16, inode_num: u32) -> Vec<u8> {
    let mut b = Vec::new();
    b.extend_from_slice(&kind.to_le_bytes());
    b.extend_from_slice(&[0; 6]);
    b.extend_from_slice(&0x6000_0000u32.to_le_bytes());
    b.extend_from_slice(&inode_num.to_le_bytes());
    b
}

fn dir_inode(inode_num: u32, block_index: u32, block_offset: u16, file_size: u16) -> Vec<u8> {
    let mut b = inode_header(1, inode_num);
    b.extend_from_slice(&block_index.to_le_bytes());
    b.extend_from_slice(&2u32.to_le_bytes());
    b.extend_from_slice(&file_size.to_le_bytes());
    b.extend_from_slice(&block_offset.to_le_bytes());
    b.extend_from_slice(&1u32.to_le_bytes());
    assert_eq!(b.len(), 32);
    b
}

fn extended_dir_inode(inode_num: u32, block_index: u32, block_offset: u16, file_size: u32) -> Vec<u8> {
    let mut b = inode_header(8, inode_num);
    b.extend_from_slice(&2u32.to_le_bytes());
    b.extend_from_slice(&file_size.to_le_bytes());
    b.extend_from_slice(&block_index.to_le_bytes());
    b.extend_from_slice(&1u32.to_le_bytes());
    b.extend_from_slice(&0u16.to_le_bytes());
    b.extend_from_slice(&block_offset.to_le_bytes());
    b.extend_from_slice(&0xFFFF_FFFFu32.to_le_bytes());
    assert_eq!(b.len(), 40);
    b
}

fn file_inode(inode_num: u32, frag_idx: u32, block_offset: u32, file_size: u32) -> Vec<u8> {
    let mut b = inode_header(2, inode_num);
    b.extend_from_slice(&96u32.to_le_bytes());
    b.extend_from_slice(&frag_idx.to_le_bytes());
    b.extend_from_slice(&block_offset.to_le_bytes());
    b.extend_from_slice(&file_size.to_le_bytes());
    assert_eq!(b.len(), 32);
    b
}

fn symlink_inode(inode_num: u32) -> Vec<u8> {
    let mut b = inode_header(3, inode_num);
    b.extend_from_slice(&[0; 16]);
    b
}

fn dir_header(count: u32, start: u32) -> Vec<u8> {
    let mut b = Vec::new();
    b.extend_from_slice(&(count - 1).to_le_bytes());
    b.extend_from_slice(&start.to_le_bytes());
    b.extend_from_slice(&1u32.to_le_bytes());
    b
}

fn dir_entry(inode_at: u16, kind: u16, name: &[u8]) -> Vec<u8> {
    let mut b = Vec::new();
    b.extend_from_slice(&inode_at.to_le_bytes());
    b.extend_from_slice(&0i16.to_le_bytes());
    b.extend_from_slice(&kind.to_le_bytes());
    b.extend_from_slice(&((name.len() - 1) as u16).to_le_bytes());
    b.extend_from_slice(name);
    b
}

/// One run of a directory listing.
fn run(start: u32, entries: &[(u16, u16, &[u8])]) -> Vec<u8> {
    let mut b = dir_header(entries.len() as u32, start);
    for (inode_at, kind, name) in entries {
        b.extend_from_slice(&dir_entry(*inode_at, *kind, name));
    }
    b
}

struct Image {
    flags: u16,
    data: Vec<u8>,
    inodes: Vec<u8>,
    dirs: Vec<u8>,
    fragments: Option<Vec<u8>>,
    root_inode: u64,
}

impl Image {
    fn build(&self) -> Vec<u8> {
        let inode_table = 96 + self.data.len();
        let dir_table = inode_table + self.inodes.len();
        let mut body = Vec::new();
        body.extend_from_slice(&self.data);
        body.extend_from_slice(&self.inodes);
        body.extend_from_slice(&self.dirs);
        let mut frag_table = ABSENT;
        if let Some(entries) = &self.fragments {
            let chunk_at = 96 + body.len();
            body.extend_from_slice(entries);
            frag_table = (96 + body.len()) as u64;
            body.extend_from_slice(&(chunk_at as u64).to_le_bytes());
        }
        let id_table = 96 + body.len();
        body.extend_from_slice(&stored(&0u32.to_le_bytes()));
        let bytes_used = 96 + body.len();

        let mut b = Vec::new();
        b.extend_from_slice(&0x73717368u32.to_le_bytes());
        b.extend_from_slice(&3u32.to_le_bytes());
        b.extend_from_slice(&0x6000_0000u32.to_le_bytes());
        b.extend_from_slice(&0x20000u32.to_le_bytes());
        b.extend_from_slice(&1u32.to_le_bytes());
        b.extend_from_slice(&1u16.to_le_bytes());
        b.extend_from_slice(&17u16.to_le_bytes());
        b.extend_from_slice(&self.flags.to_le_bytes());
        b.extend_from_slice(&1u16.to_le_bytes());
        b.extend_from_slice(&4u16.to_le_bytes());
        b.extend_from_slice(&0u16.to_le_bytes());
        b.extend_from_slice(&self.root_inode.to_le_bytes());
        b.extend_from_slice(&(bytes_used as u64).to_le_bytes());
        b.extend_from_slice(&(id_table as u64).to_le_bytes());
        b.extend_from_slice(&ABSENT.to_le_bytes());
        b.extend_from_slice(&(inode_table as u64).to_le_bytes());
        b.extend_from_slice(&(dir_table as u64).to_le_bytes());
        b.extend_from_slice(&frag_table.to_le_bytes());
        b.extend_from_slice(&ABSENT.to_le_bytes());
        assert_eq!(b.len(), 96);
        b.extend_from_slice(&body);
        b
    }
}

const UNCOMPRESSED_DATA: u16 = 0x0002;
const UNCOMPRESSED_FRAGMENTS: u16 = 0x0008;

/// `/a/b.txt` with ten bytes, no fragment.
fn image_with_a_b_txt() -> Vec<u8> {
    let root_at = 0u16;
    let a_at = 32u16;
    let b_at = 64u16;
    let root_listing = run(0, &[(a_at, 1, b"a")]);
    let a_listing = run(0, &[(b_at, 2, b"b.txt")]);
    let mut inodes = Vec::new();
    inodes.extend_from_slice(&dir_inode(1, 0, 0, root_listing.len() as u16));
    inodes.extend_from_slice(&dir_inode(2, 0, root_listing.len() as u16, a_listing.len() as u16));
    inodes.extend_from_slice(&file_inode(3, 0xFFFF_FFFF, 4, 10));
    let mut dirs = root_listing.clone();
    dirs.extend_from_slice(&a_listing);
    Image {
        flags: UNCOMPRESSED_DATA,
        data: b"....0123456789....".to_vec(),
        inodes: stored(&inodes),
        dirs: stored(&dirs),
        fragments: None,
        root_inode: root_at as u64,
    }
    .build()
}

/// A root directory with the given entries, each a file of the given bytes
/// or, for `None`, an empty directory.
fn flat_image(entries: &[(&[u8], Option<&[u8]>)]) -> Vec<u8> {
    let mut data = Vec::new();
    let mut inodes = vec![0u8; 32];
    let mut listing_entries: Vec<(u16, u16, &[u8])> = Vec::new();
    for (i, (name, content)) in entries.iter().enumerate() {
        let at = inodes.len() as u16;
        match content {
            Some(bytes) => {
                inodes.extend_from_slice(&file_inode(
                    10 + i as u32,
                    0xFFFF_FFFF,
                    data.len() as u32,
                    bytes.len() as u32,
                ));
                data.extend_from_slice(bytes);
                listing_entries.push((at, 2, name));
            }
            None => {
                inodes.extend_from_slice(&dir_inode(10 + i as u32, 0, 0, 0));
                listing_entries.push((at, 1, name));
            }
        }
    }
    let listing = if listing_entries.is_empty() { Vec::new() } else { run(0, &listing_entries) };
    inodes[..32].copy_from_slice(&dir_inode(1, 0, 0, listing.len() as u16));
    Image {
        flags: UNCOMPRESSED_DATA,
        data,
        inodes: stored(&inodes),
        dirs: stored(&listing),
        fragments: None,
        root_inode: 0,
    }
    .build()
}

fn mounted(image: &[u8]) -> VfsContext<Squashfs<Gzip>> {
    let mut ctx = VfsContext::new();
    let fs = Squashfs::new(image, Gzip).unwrap();
    assert_eq!(add_vfs(&mut ctx, "/", fs), Ok(()));
    ctx
}

fn read_all(ctx: &mut VfsContext<Squashfs<Gzip>>, path: &str) -> Result<Vec<u8>, VfsError> {
    let entry = vfs_open(ctx, path)?;
    let mut file = ctx.open_node(entry, 0, ROOT)?;
    let bytes = file.read(ctx, 0, 0, 0);
    file.close(ctx)?;
    bytes
}

#[test]
fn scenario_file_in_subdirectory_reads_its_ten_bytes() {
    let mut ctx = mounted(&image_with_a_b_txt());
    let entry = vfs_open(&mut ctx, "/a/b.txt").unwrap();
    let mut file = ctx.open_node(entry, 0, ROOT).unwrap();
    assert_eq!(file.len(&ctx), Ok(10));
    assert_eq!(file.read(&mut ctx, 10, 0, 0), Ok(b"0123456789".to_vec()));
    assert_eq!(file.read(&mut ctx, 4, 3, 0), Ok(b"3456".to_vec()));
    assert_eq!(file.read(&mut ctx, 0, 7, 0), Ok(b"789".to_vec()));
    assert_eq!(file.close(&mut ctx), Ok(()));
}

#[test]
fn scenario_file_in_fragment_reads_its_three_bytes() {
    let listing = run(0, &[(32, 2, b"tail")]);
    let mut inodes = dir_inode(1, 0, 0, listing.len() as u16);
    inodes.extend_from_slice(&file_inode(2, 0, 5, 3));
    let fragment_block = b"AAAAAxyzBBBBBBBB";
    assert_eq!(fragment_block.len(), 16);
    let mut data = b"padding!".to_vec();
    let fragment_start = 96 + data.len() as u64;
    data.extend_from_slice(fragment_block);
    let mut entry = Vec::new();
    entry.extend_from_slice(&fragment_start.to_le_bytes());
    entry.extend_from_slice(&(16u32 | (1 << 24)).to_le_bytes());
    entry.extend_from_slice(&0u32.to_le_bytes());
    let image = Image {
        flags: UNCOMPRESSED_DATA | UNCOMPRESSED_FRAGMENTS,
        data,
        inodes: stored(&inodes),
        dirs: stored(&listing),
        fragments: Some(stored(&entry)),
        root_inode: 0,
    }
    .build();

    let mut ctx = mounted(&image);
    assert_eq!(read_all(&mut ctx, "/tail"), Ok(b"xyz".to_vec()));
    let entry = vfs_open(&mut ctx, "/tail").unwrap();
    let mut file = ctx.open_node(entry, 0, ROOT).unwrap();
    assert_eq!(file.read(&mut ctx, 3, 0, 0), Ok(b"xyz".to_vec()));
    assert_eq!(file.read(&mut ctx, 1, 2, 0), Ok(b"z".to_vec()));
}

#[test]
fn fragment_that_is_compressed_is_decompressed() {
    let listing = run(0, &[(32, 2, b"w")]);
    let mut inodes = dir_inode(1, 0, 0, listing.len() as u16);
    inodes.extend_from_slice(&file_inode(2, 0, 6, 5));
    let mut data = Vec::new();
    let fragment_start = 96u64;
    data.extend_from_slice(&HELLO_WORLD);
    let mut entry = Vec::new();
    entry.extend_from_slice(&fragment_start.to_le_bytes());
    entry.extend_from_slice(&(HELLO_WORLD.len() as u32).to_le_bytes());
    entry.extend_from_slice(&0u32.to_le_bytes());
    let image = Image {
        flags: UNCOMPRESSED_DATA,
        data,
        inodes: stored(&inodes),
        dirs: stored(&listing),
        fragments: Some(stored(&entry)),
        root_inode: 0,
    }
    .build();
    let mut ctx = mounted(&image);
    assert_eq!(read_all(&mut ctx, "/w"), Ok(b"world".to_vec()));
}

#[test]
fn file_with_fragment_but_no_fragment_table_is_corrupt() {
    let listing = run(0, &[(32, 2, b"w")]);
    let mut inodes = dir_inode(1, 0, 0, listing.len() as u16);
    inodes.extend_from_slice(&file_inode(2, 0, 0, 1));
    let image = Image {
        flags: UNCOMPRESSED_DATA,
        data: b"x".to_vec(),
        inodes: stored(&inodes),
        dirs: stored(&listing),
        fragments: None,
        root_inode: 0,
    }
    .build();
    let mut ctx = mounted(&image);
    assert_eq!(read_all(&mut ctx, "/w"), Err(VfsError::Corrupt));
}

#[test]
fn scenario_second_mount_is_crossed_at_its_mount_point() {
    let root_image = flat_image(&[(b"mnt", None), (b"y", Some(b"root y"))]);
    let other_image = flat_image(&[(b"x", Some(b"from the second"))]);
    let mut ctx = mounted(&root_image);

    // the covering directory has no children of its own
    assert_eq!(vfs_open(&mut ctx, "/mnt/x"), Err(VfsError::NotFound));

    let other = Squashfs::new(&other_image, Gzip).unwrap();
    assert_eq!(add_vfs(&mut ctx, "/mnt", other), Ok(()));
    assert_eq!(ctx.mount_count(), 2);

    let mount_point = vfs_open(&mut ctx, "/mnt").unwrap();
    assert_eq!(ctx.node(mount_point).unwrap().get_vnode().vfs_mounted_here, Some(1));
    assert_eq!(ctx.node(mount_point).unwrap().get_vnode().parent_vfs, 0);

    let x = vfs_open(&mut ctx, "/mnt/x").unwrap();
    assert_eq!(ctx.node(x).unwrap().get_vnode().parent_vfs, 1);
    assert_eq!(ctx.node(x).unwrap().parent, Some(mount_point));
    assert_eq!(read_all(&mut ctx, "/mnt/x"), Ok(b"from the second".to_vec()));
    assert_eq!(read_all(&mut ctx, "/y"), Ok(b"root y".to_vec()));
    // names of the root file system do not show below the mount point
    assert_eq!(vfs_open(&mut ctx, "/mnt/y"), Err(VfsError::NotFound));
}

#[test]
fn mount_hides_what_was_cached_below_the_mount_point() {
    let mut inner_listing = run(0, &[(64, 2, b"x")]);
    let root_listing = run(0, &[(32, 1, b"mnt")]);
    let mut inodes = dir_inode(1, 0, 0, root_listing.len() as u16);
    inodes.extend_from_slice(&dir_inode(2, 0, root_listing.len() as u16, inner_listing.len() as u16));
    inodes.extend_from_slice(&file_inode(3, 0xFFFF_FFFF, 0, 5));
    let mut dirs = root_listing.clone();
    dirs.append(&mut inner_listing);
    let root_image = Image {
        flags: UNCOMPRESSED_DATA,
        data: b"below".to_vec(),
        inodes: stored(&inodes),
        dirs: stored(&dirs),
        fragments: None,
        root_inode: 0,
    }
    .build();
    let other_image = flat_image(&[(b"x", Some(b"above"))]);

    let mut ctx = mounted(&root_image);
    assert_eq!(read_all(&mut ctx, "/mnt/x"), Ok(b"below".to_vec()));
    let other = Squashfs::new(&other_image, Gzip).unwrap();
    assert_eq!(add_vfs(&mut ctx, "/mnt/", other), Ok(()));
    assert_eq!(read_all(&mut ctx, "/mnt/x"), Ok(b"above".to_vec()));
    assert_eq!(del_vfs(&mut ctx, "/mnt"), Ok(()));
    assert_eq!(read_all(&mut ctx, "/mnt/x"), Ok(b"below".to_vec()));
}

#[test]
fn scenario_corrupt_magic_fails_and_leaves_the_registry_alone() {
    let mut image = image_with_a_b_txt();
    image[1] ^= 0x40;
    let mut ctx: VfsContext<Squashfs<Gzip>> = VfsContext::new();
    match Squashfs::new(&image, Gzip) {
        Ok(fs) => {
            let _ = add_vfs(&mut ctx, "/", fs);
            panic!("a corrupt image was opened");
        }
        Err(e) => assert_eq!(e, VfsError::Corrupt),
    }
    assert_eq!(ctx.mount_count(), 0);
    assert!(!ctx.is_mounted(b"/"));
    assert_eq!(vfs_open(&mut ctx, "/"), Err(VfsError::NotFound));
    assert!(matches!(init(Some(&image)), Err(VfsError::Corrupt)));
}

#[test]
fn init_without_an_image_finds_nothing() {
    assert!(matches!(init(None), Err(VfsError::NotFound)));
    assert!(init(Some(&image_with_a_b_txt())).is_ok());
}

#[test]
fn image_checks() {
    let good = image_with_a_b_txt();
    assert!(Squashfs::new(&good, Gzip).is_ok());

    let mut other_compressor = good.clone();
    other_compressor[20] = 4;
    assert!(matches!(Squashfs::new(&other_compressor, Gzip), Err(VfsError::Unsupported)));

    let mut unknown_compressor = good.clone();
    unknown_compressor[20] = 9;
    assert!(matches!(Squashfs::new(&unknown_compressor, Gzip), Err(VfsError::Corrupt)));

    let mut version = good.clone();
    version[28] = 3;
    assert!(matches!(Squashfs::new(&version, Gzip), Err(VfsError::Corrupt)));

    let mut block_log = good.clone();
    block_log[22] = 16;
    assert!(matches!(Squashfs::new(&block_log, Gzip), Err(VfsError::Corrupt)));

    let mut block_size = good.clone();
    block_size[12..16].copy_from_slice(&0x20_0000u32.to_le_bytes());
    block_size[22] = 21;
    assert!(matches!(Squashfs::new(&block_size, Gzip), Err(VfsError::Corrupt)));

    let truncated = &good[..good.len() - 1];
    assert!(matches!(Squashfs::new(truncated, Gzip), Err(VfsError::Corrupt)));

    let mut table_outside = good.clone();
    table_outside[72..80].copy_from_slice(&(good.len() as u64 + 1).to_le_bytes());
    assert!(matches!(Squashfs::new(&table_outside, Gzip), Err(VfsError::Corrupt)));

    let mut split_chunk = good.clone();
    // the inode table's chunk header claims one byte too many
    let inode_table = u64::from_le_bytes(good[64..72].try_into().unwrap()) as usize;
    split_chunk[inode_table] += 1;
    assert!(matches!(Squashfs::new(&split_chunk, Gzip), Err(VfsError::Corrupt)));

    assert!(matches!(Squashfs::new(&good[..95], Gzip), Err(VfsError::Corrupt)));
}

#[test]
fn directory_scan_goes_on_after_the_first_run() {
    // two runs of one entry each: the second name lies behind a second header
    let mut listing = run(0, &[(32, 2, b"first")]);
    listing.extend_from_slice(&run(0, &[(64, 2, b"second")]));
    let mut inodes = dir_inode(1, 0, 0, listing.len() as u16);
    inodes.extend_from_slice(&file_inode(2, 0xFFFF_FFFF, 0, 1));
    inodes.extend_from_slice(&file_inode(3, 0xFFFF_FFFF, 1, 1));
    let image = Image {
        flags: UNCOMPRESSED_DATA,
        data: b"12".to_vec(),
        inodes: stored(&inodes),
        dirs: stored(&listing),
        fragments: None,
        root_inode: 0,
    }
    .build();
    let mut ctx = mounted(&image);
    assert_eq!(read_all(&mut ctx, "/first"), Ok(b"1".to_vec()));
    assert_eq!(read_all(&mut ctx, "/second"), Ok(b"2".to_vec()));
    assert_eq!(vfs_open(&mut ctx, "/third"), Err(VfsError::NotFound));
}

#[test]
fn directory_runs_may_name_different_inode_chunks() {
    let mut listing = run(0, &[(32, 2, b"near")]);
    let first_chunk_len = 2 + 64;
    listing.extend_from_slice(&run(first_chunk_len, &[(0, 2, b"far")]));
    let mut first = dir_inode(1, 0, 0, listing.len() as u16);
    first.extend_from_slice(&file_inode(2, 0xFFFF_FFFF, 0, 4));
    let second = file_inode(3, 0xFFFF_FFFF, 4, 3);
    let mut inodes = stored(&first);
    inodes.extend_from_slice(&compressed_or_stored(&second));
    let image = Image {
        flags: UNCOMPRESSED_DATA,
        data: b"nearfar".to_vec(),
        inodes,
        dirs: stored(&listing),
        fragments: None,
        root_inode: 0,
    }
    .build();
    let mut ctx = mounted(&image);
    assert_eq!(read_all(&mut ctx, "/near"), Ok(b"near".to_vec()));
    assert_eq!(read_all(&mut ctx, "/far"), Ok(b"far".to_vec()));
}

fn compressed_or_stored(payload: &[u8]) -> Vec<u8> {
    stored(payload)
}

#[test]
fn directory_with_a_cut_continuation_is_corrupt() {
    // the directory claims more bytes than the listing has, and nothing
    // follows the listing in the table
    let listing = run(0, &[(32, 2, b"only")]);
    let mut inodes = dir_inode(1, 0, 0, listing.len() as u16 + 3);
    inodes.extend_from_slice(&file_inode(2, 0xFFFF_FFFF, 0, 1));
    let image = Image {
        flags: UNCOMPRESSED_DATA,
        data: b"1".to_vec(),
        inodes: stored(&inodes),
        dirs: stored(&listing),
        fragments: None,
        root_inode: 0,
    }
    .build();
    let mut ctx = mounted(&image);
    assert_eq!(read_all(&mut ctx, "/only"), Ok(b"1".to_vec()));
    assert_eq!(vfs_open(&mut ctx, "/none"), Err(VfsError::Corrupt));
}

#[test]
fn extended_directory_is_searched_like_a_basic_one() {
    let root_listing = run(0, &[(32, 8, b"big")]);
    let big_listing = run(0, &[(72, 2, b"f")]);
    let mut inodes = dir_inode(1, 0, 0, root_listing.len() as u16);
    inodes.extend_from_slice(&extended_dir_inode(
        2,
        0,
        root_listing.len() as u16,
        big_listing.len() as u32,
    ));
    inodes.extend_from_slice(&file_inode(3, 0xFFFF_FFFF, 0, 2));
    let mut dirs = root_listing.clone();
    dirs.extend_from_slice(&big_listing);
    let image = Image {
        flags: UNCOMPRESSED_DATA,
        data: b"ok".to_vec(),
        inodes: stored(&inodes),
        dirs: stored(&dirs),
        fragments: None,
        root_inode: 0,
    }
    .build();
    let mut ctx = mounted(&image);
    let big = vfs_open(&mut ctx, "/big").unwrap();
    assert_eq!(ctx.node(big).unwrap().get_vnode().file_typ, VNodeType::Directory);
    assert_eq!(read_all(&mut ctx, "/big/f"), Ok(b"ok".to_vec()));
}

#[test]
fn inode_kinds_that_are_not_decoded_are_unsupported() {
    let listing = run(0, &[(32, 3, b"link"), (64, 2, b"file")]);
    let mut inodes = dir_inode(1, 0, 0, listing.len() as u16);
    inodes.extend_from_slice(&symlink_inode(2));
    inodes.extend_from_slice(&file_inode(3, 0xFFFF_FFFF, 0, 1));
    let image = Image {
        flags: UNCOMPRESSED_DATA,
        data: b"1".to_vec(),
        inodes: stored(&inodes),
        dirs: stored(&listing),
        fragments: None,
        root_inode: 0,
    }
    .build();
    let mut ctx = mounted(&image);
    assert_eq!(vfs_open(&mut ctx, "/link"), Err(VfsError::Unsupported));
    assert_eq!(read_all(&mut ctx, "/file"), Ok(b"1".to_vec()));
    assert_eq!(InodeFileType::from_tag(3), Some(InodeFileType::BasicSymlink));
    assert_eq!(InodeFileType::from_tag(14), None);
    assert_eq!(InodeFileType::from_tag(0), None);
    assert_eq!(Inode::from_bytes(&symlink_inode(2)), Err(VfsError::Unsupported));
    assert_eq!(Inode::from_bytes(&[14, 0]), Err(VfsError::Corrupt));
    assert_eq!(Inode::from_bytes(&[2, 0, 0]), Err(VfsError::Corrupt));
}

#[test]
fn name_match_is_exact() {
    let mut ctx = mounted(&flat_image(&[(b"name", Some(b"1")), (b"name2", Some(b"2"))]));
    assert_eq!(read_all(&mut ctx, "/name2"), Ok(b"2".to_vec()));
    assert_eq!(read_all(&mut ctx, "/name"), Ok(b"1".to_vec()));
    assert_eq!(vfs_open(&mut ctx, "/nam"), Err(VfsError::NotFound));
    assert_eq!(vfs_open(&mut ctx, "/Name"), Err(VfsError::NotFound));
    assert_eq!(vfs_open(&mut ctx, "/name/x"), Err(VfsError::NotFound));
}

#[test]
fn first_entry_of_a_name_wins() {
    let mut ctx = mounted(&flat_image(&[(b"twin", Some(b"first")), (b"twin", Some(b"second"))]));
    assert_eq!(read_all(&mut ctx, "/twin"), Ok(b"first".to_vec()));
}

#[test]
fn compressed_metadata_and_data_are_decompressed() {
    // the data table holds one zlib stream; the inode table's chunk is
    // stored, the directory table's chunk compressed
    let listing = run(0, &[(32, 2, b"hello")]);
    let mut inodes = dir_inode(1, 0, 0, listing.len() as u16);
    inodes.extend_from_slice(&file_inode(2, 0xFFFF_FFFF, 0, 11));
    let image = Image {
        flags: 0,
        data: HELLO_WORLD.to_vec(),
        inodes: stored(&inodes),
        dirs: compressed(&zlib_stored(&listing)),
        fragments: None,
        root_inode: 0,
    }
    .build();
    let mut ctx = mounted(&image);
    assert_eq!(read_all(&mut ctx, "/hello"), Ok(b"hello world".to_vec()));
}

#[test]
fn data_that_does_not_decompress_is_a_decompress_failure() {
    let listing = run(0, &[(32, 2, b"f")]);
    let mut inodes = dir_inode(1, 0, 0, listing.len() as u16);
    inodes.extend_from_slice(&file_inode(2, 0xFFFF_FFFF, 0, 4));
    let image = Image {
        flags: 0,
        data: b"not zlib".to_vec(),
        inodes: stored(&inodes),
        dirs: stored(&listing),
        fragments: None,
        root_inode: 0,
    }
    .build();
    let mut ctx = mounted(&image);
    assert_eq!(read_all(&mut ctx, "/f"), Err(VfsError::DecompressFailure));
}

fn adler(data: &[u8]) -> u32 {
    let mut a: u32 = 1;
    let mut b: u32 = 0;
    for byte in data {
        a = (a + *byte as u32) % 65521;
        b = (b + a) % 65521;
    }
    (b << 16) | a
}

fn zlib_stored(data: &[u8]) -> Vec<u8> {
    let mut out = vec![0x78, 0x01, 0x01];
    out.extend_from_slice(&(data.len() as u16).to_le_bytes());
    out.extend_from_slice(&(!(data.len() as u16)).to_le_bytes());
    out.extend_from_slice(data);
    out.extend_from_slice(&adler(data).to_be_bytes());
    out
}

#[test]
fn reads_are_clamped_to_the_file() {
    let image = flat_image(&[(b"f", Some(b"abcdef")), (b"g", Some(b"ghij"))]);
    let mut fs = Squashfs::new(&image, Gzip).unwrap();
    let root = fs.read_root_dir().unwrap();
    let f = match fs.find_entry_in_directory(root, b"f").unwrap() {
        Inode::BasicFile(file) => file,
        other => panic!("not a file: {:?}", other),
    };
    assert_eq!(fs.read_file(&f, 100, 0), Ok(b"abcdef".to_vec()));
    assert_eq!(fs.read_file(&f, 100, 4), Ok(b"ef".to_vec()));
    assert_eq!(fs.read_file(&f, 2, 6), Ok(Vec::new()));
    assert_eq!(fs.read_file(&f, 2, 60), Ok(Vec::new()));
    assert_eq!(fs.read_file(&f, 0, 0), Ok(Vec::new()));
}

#[test]
fn read_through_a_node_checks_the_range_first() {
    let mut ctx = mounted(&flat_image(&[(b"f", Some(b"abcdef"))]));
    let entry = vfs_open(&mut ctx, "/f").unwrap();
    assert_eq!(ctx.read_node(entry, 6, 0, 0), Ok(b"abcdef".to_vec()));
    assert_eq!(ctx.read_node(entry, 7, 0, 0), Err(VfsError::IoFailure));
    assert_eq!(ctx.read_node(entry, 1, 6, 0), Err(VfsError::IoFailure));
    assert_eq!(ctx.read_node(entry, 0, 6, 0), Err(VfsError::IoFailure));
    assert_eq!(ctx.read_node(entry, usize::MAX, 1, 0), Err(VfsError::IoFailure));
    assert_eq!(ctx.read_node(entry, 3, 3, 0), Ok(b"def".to_vec()));
    assert_eq!(ctx.read_node(99, 1, 0, 0), Err(VfsError::NotFound));
    let root = vfs_open(&mut ctx, "/").unwrap();
    assert_eq!(ctx.read_node(root, 1, 0, 0), Err(VfsError::IoFailure));
}

#[test]
fn file_read_with_count_zero_reads_to_the_end() {
    let mut ctx = mounted(&flat_image(&[(b"f", Some(b"abcdef"))]));
    let entry = vfs_open(&mut ctx, "/f").unwrap();
    let mut file = ctx.open_node(entry, 0, ROOT).unwrap();
    assert_eq!(file.read(&mut ctx, 0, 0, 0), Ok(b"abcdef".to_vec()));
    assert_eq!(file.read(&mut ctx, 0, 5, 0), Ok(b"f".to_vec()));
    assert_eq!(file.read(&mut ctx, 0, 6, 0), Err(VfsError::IoFailure));
    assert_eq!(file.read(&mut ctx, 0, 7, 0), Err(VfsError::IoFailure));
}

#[test]
fn open_counts_and_close_takes_back() {
    let mut ctx = mounted(&flat_image(&[(b"f", Some(b"abcdef"))]));
    let entry = vfs_open(&mut ctx, "/f").unwrap();
    assert_eq!(ctx.node(entry).unwrap().get_vnode().ref_count, 0);
    let first = ctx.open_node(entry, 0, ROOT).unwrap();
    assert_eq!(first.descriptor, entry);
    assert_eq!(ctx.node(entry).unwrap().get_vnode().ref_count, 1);
    let second = ctx.open_node(entry, 0, UserCred { uid: 7, gid: 8 }).unwrap();
    assert_eq!(second.user_cred, UserCred { uid: 7, gid: 8 });
    assert_eq!(ctx.node(entry).unwrap().get_vnode().ref_count, 2);
    assert_eq!(first.close(&mut ctx), Ok(()));
    assert_eq!(ctx.node(entry).unwrap().get_vnode().ref_count, 1);
    assert_eq!(second.close(&mut ctx), Ok(()));
    assert_eq!(ctx.node(entry).unwrap().get_vnode().ref_count, 0);
    assert_eq!(ctx.close_node(entry, 0, ROOT), Err(VfsError::IoFailure));
    assert!(matches!(ctx.open_node(99, 0, ROOT), Err(VfsError::NotFound)));
}

#[test]
fn read_only_backend_declines_changes() {
    let image = flat_image(&[(b"f", Some(b"abcdef")), (b"d", None)]);
    let mut ctx = mounted(&image);
    let entry = vfs_open(&mut ctx, "/f").unwrap();
    let mut file = ctx.open_node(entry, 0, ROOT).unwrap();
    assert_eq!(file.write(&mut ctx, 0, b"x", 0), Err(VfsError::Unsupported));
    assert_eq!(ctx.write_node(entry, 0, b"x", 0), Err(VfsError::Unsupported));
    assert_eq!(file.read(&mut ctx, 0, 0, 0), Ok(b"abcdef".to_vec()));

    let mut fs = Squashfs::new(&image, Gzip).unwrap();
    let mut root = fs.root(0).unwrap();
    let mut f = root.lookup(&mut fs, b"f", ROOT).unwrap();
    let d = root.lookup(&mut fs, b"d", ROOT).unwrap();
    assert_eq!(f.file_typ, VNodeType::Regular);
    assert_eq!(d.file_typ, VNodeType::Directory);
    assert_eq!(f.len::<Squashfs<Gzip>>(), 6);
    assert_eq!(d.len::<Squashfs<Gzip>>(), 0);
    assert_eq!(f.write(&mut fs, 0, b"x", 0, ROOT), Err(VfsError::Unsupported));
    assert_eq!(f.ioctl(&mut fs, 1, 0, 0, ROOT), Err(VfsError::Unsupported));
    assert!(matches!(f.getattr(&mut fs, ROOT), Err(VfsError::Unsupported)));
    assert_eq!(f.access(&mut fs, 0, ROOT), Err(VfsError::Unsupported));
    assert!(matches!(root.create(&mut fs, b"n", attr(), 0, 0, ROOT), Err(VfsError::Unsupported)));
    assert!(matches!(root.mkdir(&mut fs, b"n", attr(), ROOT), Err(VfsError::Unsupported)));
    assert_eq!(f.setattr(&mut fs, attr(), ROOT), Err(VfsError::Unsupported));
    assert_eq!(f.link(&mut fs, &d, b"n", ROOT), Err(VfsError::Unsupported));
    assert_eq!(root.rename(&mut fs, b"f", &d, b"n", ROOT), Err(VfsError::Unsupported));
    assert_eq!(root.symlink(&mut fs, b"l", attr(), b"f", ROOT), Err(VfsError::Unsupported));
    assert_eq!(f.fsync(&mut fs, ROOT), Err(VfsError::Unsupported));
    assert_eq!(f.open(&mut fs, 0, ROOT), Ok(()));
    assert_eq!(f.close(&mut fs, 0, ROOT), Ok(()));
    assert_eq!(f.read(&mut fs, 2, 1, 0, ROOT), Ok(b"bc".to_vec()));
    assert_eq!(d.clone_for_test().read(&mut fs, 1, 0, 0, ROOT), Err(VfsError::IoFailure));
    assert!(matches!(fs.statfs(0), Err(VfsError::Unsupported)));
    assert_eq!(fs.sync(0), Err(VfsError::Unsupported));
    assert_eq!(fs.fid(b"/f", 0), None);
    assert_eq!(fs.mount(b"/", 0), Ok(()));
    assert_eq!(fs.unmount(0), Ok(()));
}

fn attr() -> kernel::drivers::fs::vfs::VAttr {
    kernel::drivers::fs::vfs::VAttr {
        typ: VNodeType::Regular,
        mode: 0,
        uid: 0,
        gid: 0,
        fs_id: 0,
        node_id: 0,
        link_count: 0,
        size: 0,
        block_size: 0,
        last_access: 0,
        last_modify: 0,
        last_chg: 0,
        rdev: (),
        used_blocks: 0,
    }
}

trait CloneForTest {
    fn clone_for_test(&self) -> Self;
}

impl CloneForTest for kernel::drivers::fs::vfs::VNode<Inode> {
    fn clone_for_test(&self) -> Self {
        kernel::drivers::fs::vfs::VNode::new(self.inode, self.file_typ, self.parent_vfs)
    }
}

#[test]
fn root_comes_first_and_only_once() {
    let image = flat_image(&[(b"mnt", None)]);
    let mut ctx: VfsContext<Squashfs<Gzip>> = VfsContext::new();
    let fs = || Squashfs::new(&image, Gzip).unwrap();
    assert_eq!(add_vfs(&mut ctx, "/mnt", fs()), Err(MountError::NoRoot));
    assert_eq!(ctx.mount_count(), 0);
    assert_eq!(add_vfs(&mut ctx, "/", fs()), Ok(()));
    assert_eq!(add_vfs(&mut ctx, "/", fs()), Err(MountError::RootMounted));
    assert_eq!(add_vfs(&mut ctx, "//", fs()), Err(MountError::RootMounted));
    assert_eq!(add_vfs(&mut ctx, "", fs()), Err(MountError::RootMounted));
    assert_eq!(ctx.mount_count(), 1);
    assert_eq!(add_vfs(&mut ctx, "/mnt", fs()), Ok(()));
    assert_eq!(add_vfs(&mut ctx, "/mnt", fs()), Err(MountError::AlreadyMounted));
    assert_eq!(add_vfs(&mut ctx, "/mnt/", fs()), Err(MountError::AlreadyMounted));
    assert_eq!(add_vfs(&mut ctx, "//mnt", fs()), Err(MountError::AlreadyMounted));
    assert_eq!(add_vfs(&mut ctx, "/nowhere", fs()), Err(MountError::TargetNotFound));
    assert_eq!(ctx.mount_count(), 2);
    assert!(ctx.is_mounted(b"/"));
    assert!(ctx.is_mounted(b"/mnt"));
    assert!(!ctx.is_mounted(b"/mnt/"));
}

#[test]
fn removal_checks_for_mounts_below() {
    let image = flat_image(&[(b"mnt", None), (b"mnt2", None), (b"sub", None)]);
    let fs = || Squashfs::new(&image, Gzip).unwrap();
    let mut ctx: VfsContext<Squashfs<Gzip>> = VfsContext::new();
    assert_eq!(del_vfs(&mut ctx, "/"), Err(MountError::NoRoot));
    assert_eq!(del_vfs(&mut ctx, "/mnt"), Err(MountError::NoRoot));
    assert_eq!(add_vfs(&mut ctx, "/", fs()), Ok(()));
    assert_eq!(add_vfs(&mut ctx, "/mnt", fs()), Ok(()));
    assert_eq!(add_vfs(&mut ctx, "/mnt2", fs()), Ok(()));
    assert_eq!(add_vfs(&mut ctx, "/mnt/sub", fs()), Ok(()));
    assert_eq!(ctx.mount_count(), 4);

    assert_eq!(del_vfs(&mut ctx, "/"), Err(MountError::Busy));
    assert_eq!(del_vfs(&mut ctx, "/mnt"), Err(MountError::Busy));
    assert_eq!(del_vfs(&mut ctx, "/mnt/"), Err(MountError::Busy));
    assert_eq!(ctx.mount_count(), 4);
    // `/mnt2` does not lie below `/mnt`
    assert!(mount_point_busy(&ctx, b"/mnt"));
    assert!(!mount_point_busy(&ctx, b"/mnt2"));
    assert!(!mount_point_busy(&ctx, b"/mnt/sub"));
    assert!(!mount_point_busy(&ctx, b"/mn"));

    assert_eq!(del_vfs(&mut ctx, "/mnt/sub"), Ok(()));
    assert_eq!(ctx.mount_count(), 3);
    assert!(!mount_point_busy(&ctx, b"/mnt"));
    // nothing is mounted there, and nothing below it
    assert_eq!(del_vfs(&mut ctx, "/elsewhere"), Ok(()));
    assert_eq!(ctx.mount_count(), 3);
    assert_eq!(del_vfs(&mut ctx, "/mnt"), Ok(()));
    assert_eq!(del_vfs(&mut ctx, "/"), Err(MountError::Busy));
    assert_eq!(del_vfs(&mut ctx, "/mnt2"), Ok(()));
    assert_eq!(ctx.mount_count(), 1);
    assert_eq!(del_vfs(&mut ctx, "/"), Ok(()));
    assert_eq!(ctx.mount_count(), 0);
    assert_eq!(vfs_open(&mut ctx, "/"), Err(VfsError::NotFound));
    assert_eq!(add_vfs(&mut ctx, "/", fs()), Ok(()));
    assert_eq!(vfs_open(&mut ctx, "/mnt"), Ok(1));
}

#[test]
fn node_of_a_removed_mount_reaches_no_backend() {
    let root_image = flat_image(&[(b"mnt", None)]);
    let other_image = flat_image(&[(b"x", Some(b"gone"))]);
    let mut ctx = mounted(&root_image);
    let other = Squashfs::new(&other_image, Gzip).unwrap();
    assert_eq!(add_vfs(&mut ctx, "/mnt", other), Ok(()));
    let x = vfs_open(&mut ctx, "/mnt/x").unwrap();
    assert_eq!(ctx.read_node(x, 4, 0, 0), Ok(b"gone".to_vec()));
    assert_eq!(del_vfs(&mut ctx, "/mnt"), Ok(()));
    assert_eq!(ctx.read_node(x, 4, 0, 0), Err(VfsError::NotFound));
    assert_eq!(vfs_open(&mut ctx, "/mnt/x"), Err(VfsError::NotFound));
    let mount_point = vfs_open(&mut ctx, "/mnt").unwrap();
    assert_eq!(ctx.node(mount_point).unwrap().get_vnode().vfs_mounted_here, None);
}

#[test]
fn open_of_one_path_leads_to_one_entry() {
    let mut ctx = mounted(&image_with_a_b_txt());
    let first = vfs_open(&mut ctx, "/a/b.txt").unwrap();
    let entries = ctx.nodes.len();
    let second = vfs_open(&mut ctx, "/a/b.txt").unwrap();
    assert_eq!(first, second);
    assert_eq!(ctx.nodes.len(), entries);
    assert_eq!(vfs_open(&mut ctx, "//a///b.txt/"), Ok(first));
    assert_eq!(vfs_open(&mut ctx, "a/b.txt"), Ok(first));
    assert_eq!(ctx.nodes.len(), entries);
    let a = vfs_open(&mut ctx, "/a").unwrap();
    assert_eq!(ctx.node(first).unwrap().parent, Some(a));
    assert_eq!(ctx.node(a).unwrap().parent, Some(0));
    assert_eq!(ctx.node(0).unwrap().parent, None);
    assert_eq!(vfs_open(&mut ctx, "/"), Ok(0));
    assert_eq!(vfs_open(&mut ctx, ""), Ok(0));
    assert_eq!(ctx.node(a).unwrap().as_ptr(), a);
    assert_eq!(ctx.node(a).unwrap().cached(b"b.txt"), Some(first));
    assert_eq!(ctx.node(a).unwrap().cached(b"b"), None);
}

#[test]
fn lookup_miss_leaves_the_cache_as_it_was() {
    let mut ctx = mounted(&image_with_a_b_txt());
    let a = vfs_open(&mut ctx, "/a").unwrap();
    let entries = ctx.nodes.len();
    assert_eq!(TreeNode::lookup(&mut ctx, a, b"missing"), Err(VfsError::NotFound));
    assert_eq!(vfs_open(&mut ctx, "/a/missing/deeper"), Err(VfsError::NotFound));
    assert_eq!(ctx.nodes.len(), entries);
    assert_eq!(TreeNode::lookup(&mut ctx, 99, b"a"), Err(VfsError::NotFound));
    let b = TreeNode::lookup(&mut ctx, a, b"b.txt").unwrap();
    assert_eq!(b, entries);
    assert_eq!(ctx.nodes.len(), entries + 1);
    assert_eq!(TreeNode::lookup(&mut ctx, a, b"b.txt"), Ok(b));
}

#[test]
fn paths_are_normalized_and_split() {
    assert_eq!(normalize_path(b"/"), b"/".to_vec());
    assert_eq!(normalize_path(b""), b"/".to_vec());
    assert_eq!(normalize_path(b"///"), b"/".to_vec());
    assert_eq!(normalize_path(b"/mnt/"), b"/mnt".to_vec());
    assert_eq!(normalize_path(b"/mnt//"), b"/mnt".to_vec());
    assert_eq!(normalize_path(b"/a/b"), b"/a/b".to_vec());
    assert_eq!(normalize_path(b"//a"), b"//a".to_vec());
    assert_eq!(split_path(b"/a/b.txt"), vec![b"a".to_vec(), b"b.txt".to_vec()]);
    assert_eq!(split_path(b"a//b/"), vec![b"a".to_vec(), b"b".to_vec()]);
    assert_eq!(split_path(b"///"), Vec::<Vec<u8>>::new());
    assert_eq!(split_path(b""), Vec::<Vec<u8>>::new());
}

#[test]
fn inode_reference_splits_into_block_and_offset() {
    let fs = Squashfs::new(&image_with_a_b_txt(), Gzip).unwrap();
    assert_eq!(fs.get_inode_block_offset(0x0000_0000_0002_0040), (2, 0x40));
    assert_eq!(fs.get_inode_block_offset(0xFFFF_FFFF_FFFF_FFFF), (0xFFFF_FFFF_FFFF, 0xFFFF));
    assert_eq!(fs.get_inode_block_offset(0), (0, 0));
}

#[test]
fn table_content_by_kind() {
    let fs = Squashfs::new(&image_with_a_b_txt(), Gzip).unwrap();
    assert_eq!(fs.get_decompressed_table(b"raw", (false, Some(false))), Ok(b"raw".to_vec()));
    assert_eq!(fs.get_decompressed_table(b"raw", (false, None)), Ok(b"raw".to_vec()));
    assert_eq!(
        fs.get_decompressed_table(&HELLO_WORLD, (false, Some(true))),
        Ok(b"hello world".to_vec())
    );
    assert_eq!(
        fs.get_decompressed_table(b"raw", (false, Some(true))),
        Err(VfsError::DecompressFailure)
    );
    assert_eq!(fs.get_decompressed_table(&stored(b"abc"), (true, None)), Ok(b"abc".to_vec()));
    assert_eq!(
        fs.get_decompressed_table(&compressed(&HELLO_WORLD), (true, Some(false))),
        Ok(b"hello world".to_vec())
    );
    assert_eq!(fs.get_decompressed_table(&[1], (true, None)), Err(VfsError::Corrupt));
}

/// A FAT12 volume of 16 sectors whose root directory holds the file
/// `BOOT.CFG` with the given bytes, which fit one sector.
fn small_fat_volume(content: &[u8]) -> Vec<u8> {
    let mut disk = vec![0u8; 16 * 512];
    disk[11..13].copy_from_slice(&512u16.to_le_bytes());
    disk[13] = 1;
    disk[14..16].copy_from_slice(&1u16.to_le_bytes());
    disk[16] = 1;
    disk[17..19].copy_from_slice(&16u16.to_le_bytes());
    disk[19..21].copy_from_slice(&16u16.to_le_bytes());
    disk[22..24].copy_from_slice(&1u16.to_le_bytes());
    disk[54..62].copy_from_slice(b"FAT12   ");
    for (i, entry) in [0xFF8u16, 0xFFF, 0xFFF].iter().enumerate() {
        disk[512 + 2 * i..512 + 2 * i + 2].copy_from_slice(&entry.to_le_bytes());
    }
    let root = 2 * 512;
    disk[root..root + 11].copy_from_slice(b"BOOT    CFG");
    disk[root + 11] = 0x20;
    disk[root + 26..root + 28].copy_from_slice(&2u16.to_le_bytes());
    disk[root + 28..root + 32].copy_from_slice(&(content.len() as u32).to_le_bytes());
    disk[3 * 512..3 * 512 + content.len()].copy_from_slice(content);
    disk
}

fn read_through(
    ctx: &mut VfsContext<Backend<Gzip, RamDisk>>,
    path: &str,
) -> Result<Vec<u8>, VfsError> {
    let entry = vfs_open(ctx, path)?;
    let mut file = ctx.open_node(entry, 0, ROOT)?;
    let bytes = file.read(ctx, 0, 0, 0);
    file.close(ctx)?;
    bytes
}

#[test]
fn file_systems_of_two_kinds_share_one_namespace() {
    let root_image = flat_image(&[(b"mnt", None), (b"y", Some(b"root y"))]);
    let mut ctx: VfsContext<Backend<Gzip, RamDisk>> = VfsContext::new();
    let archive = Backend::Archive(Squashfs::new(&root_image, Gzip).unwrap());
    assert_eq!(add_vfs(&mut ctx, "/", archive), Ok(()));
    let volume = FatFs::new(RamDisk::new(small_fat_volume(b"timeout: 3")), true).unwrap();
    assert_eq!(add_vfs(&mut ctx, "/mnt", Backend::Fat(volume)), Ok(()));
    assert_eq!(ctx.mount_count(), 2);

    assert_eq!(read_through(&mut ctx, "/y"), Ok(b"root y".to_vec()));
    assert_eq!(read_through(&mut ctx, "/mnt/boot.cfg"), Ok(b"timeout: 3".to_vec()));
    assert_eq!(read_through(&mut ctx, "/mnt/y"), Err(VfsError::NotFound));
    assert_eq!(read_through(&mut ctx, "/boot.cfg"), Err(VfsError::NotFound));

    let y = vfs_open(&mut ctx, "/y").unwrap();
    assert!(matches!(ctx.node(y).unwrap().get_vnode().inode, BackendNode::Archive(_)));
    let cfg = vfs_open(&mut ctx, "/mnt/boot.cfg").unwrap();
    assert!(matches!(ctx.node(cfg).unwrap().get_vnode().inode, BackendNode::Fat(_)));
    assert_eq!(ctx.node(cfg).unwrap().get_vnode().parent_vfs, 1);
    // The table of the volume is kept in memory while it is mounted.
    match &ctx.mounts[1].fs {
        Some(Backend::Fat(fs)) => assert!(fs.fat.is_some()),
        _ => panic!("the second mount is the volume"),
    }

    assert_eq!(del_vfs(&mut ctx, "/"), Err(MountError::Busy));
    assert_eq!(del_vfs(&mut ctx, "/mnt"), Ok(()));
    assert_eq!(read_through(&mut ctx, "/y"), Ok(b"root y".to_vec()));
}

#[test]
fn node_does_nothing_with_a_file_system_of_another_kind() {
    let root_image = flat_image(&[(b"y", Some(b"root y"))]);
    let mut archive: Backend<Gzip, RamDisk> =
        Backend::Archive(Squashfs::new(&root_image, Gzip).unwrap());
    let mut volume: Backend<Gzip, RamDisk> =
        Backend::Fat(FatFs::new(RamDisk::new(small_fat_volume(b"abc")), false).unwrap());
    let mut archive_root = archive.root(0).unwrap();
    let mut volume_root = volume.root(1).unwrap();
    assert_eq!(volume_root.parent_vfs, 1);
    let found = archive_root.lookup(&mut archive, b"y", ROOT).unwrap();
    assert!(matches!(found.inode, BackendNode::Archive(Inode::BasicFile(_))));
    assert_eq!(
        archive_root.lookup(&mut volume, b"y", ROOT).map(|_| ()),
        Err(VfsError::Unsupported)
    );
    assert_eq!(
        volume_root.lookup(&mut archive, b"boot.cfg", ROOT).map(|_| ()),
        Err(VfsError::Unsupported)
    );
    let mut cfg = volume_root.lookup(&mut volume, b"boot.cfg", ROOT).unwrap();
    assert_eq!(cfg.read(&mut volume, 3, 0, 0, ROOT), Ok(b"abc".to_vec()));
    assert_eq!(cfg.read(&mut archive, 3, 0, 0, ROOT), Err(VfsError::Unsupported));
    assert_eq!(cfg.write(&mut volume, 0, b"x", 0, ROOT), Err(VfsError::Unsupported));
}

#[test]
fn address_is_named_through_the_root_file_system() {
    let table = b"1000 start\n2000 kmain\n3000 end\n";
    let mut ctx = mounted(&flat_image(&[(b"symbols.table", Some(table))]));
    assert_eq!(get_function_name(&mut ctx, 0x2000), Ok((b"kmain".to_vec(), 0)));
    assert_eq!(get_function_name(&mut ctx, 0x1800), Ok((b"start".to_vec(), 0x1000)));
    assert_eq!(get_function_name(&mut ctx, 0x3004), Ok((b"end".to_vec(), 4)));
    assert_eq!(get_function_name(&mut ctx, 0x10), Err(VfsError::NotFound));
    // The file is closed again after each look.
    let entry = vfs_open(&mut ctx, "/symbols.table").unwrap();
    assert_eq!(ctx.node(entry).unwrap().get_vnode().ref_count, 0);

    let mut without = mounted(&flat_image(&[(b"other", Some(table))]));
    assert_eq!(get_function_name(&mut without, 0x2000), Err(VfsError::NotFound));
    let mut empty: VfsContext<Squashfs<Gzip>> = VfsContext::new();
    assert_eq!(get_function_name(&mut empty, 0x2000), Err(VfsError::NotFound));
    let mut damaged = mounted(&flat_image(&[(b"symbols.table", Some(b"zz start\n"))]));
    assert_eq!(get_function_name(&mut damaged, 0x2000), Err(VfsError::Corrupt));
}

#[test]
fn node_of_a_cache_entry_can_be_changed() {
    let mut ctx = mounted(&flat_image(&[(b"y", Some(b"root y"))]));
    let y = vfs_open(&mut ctx, "/y").unwrap();
    ctx.nodes[y].get_vnode_mut().flags = 7;
    assert_eq!(ctx.node(y).unwrap().get_vnode().flags, 7);
}

#[test]
fn backend_that_fails_its_mount_leaves_the_registry_alone() {
    // The volume claims a table of 200 sectors, which its disk does not hold.
    let mut disk = small_fat_volume(b"abc");
    disk[19..21].copy_from_slice(&300u16.to_le_bytes());
    disk[22..24].copy_from_slice(&200u16.to_le_bytes());
    let volume = || Backend::Fat(FatFs::new(RamDisk::new(disk.clone()), true).unwrap());

    let mut ctx: VfsContext<Backend<Gzip, RamDisk>> = VfsContext::new();
    assert_eq!(
        add_vfs(&mut ctx, "/", volume()),
        Err(MountError::Backend(VfsError::IoFailure))
    );
    assert_eq!(ctx.mount_count(), 0);
    assert_eq!(vfs_open(&mut ctx, "/"), Err(VfsError::NotFound));

    let root_image = flat_image(&[(b"mnt", None)]);
    let archive = Backend::Archive(Squashfs::new(&root_image, Gzip).unwrap());
    assert_eq!(add_vfs(&mut ctx, "/", archive), Ok(()));
    assert_eq!(
        add_vfs(&mut ctx, "/mnt", volume()),
        Err(MountError::Backend(VfsError::IoFailure))
    );
    assert_eq!(ctx.mount_count(), 1);
    let mount_point = vfs_open(&mut ctx, "/mnt").unwrap();
    assert_eq!(ctx.node(mount_point).unwrap().get_vnode().vfs_mounted_here, None);
    assert_eq!(add_vfs(&mut ctx, "/nowhere", volume()), Err(MountError::TargetNotFound));
}

#[test]
fn unmounting_drops_what_a_volume_keeps_in_memory() {
    let mut volume: Backend<Gzip, RamDisk> =
        Backend::Fat(FatFs::new(RamDisk::new(small_fat_volume(b"abc")), true).unwrap());
    assert_eq!(volume.mount(b"/mnt", 1), Ok(()));
    match &volume {
        Backend::Fat(fs) => assert_eq!(fs.fat.as_ref().map(|t| t.len()), Some(256)),
        Backend::Archive(_) => panic!("a volume was made"),
    }
    assert_eq!(volume.unmount(1), Ok(()));
    match &volume {
        Backend::Fat(fs) => {
            assert!(fs.fat.is_none());
            assert!(fs.fat_in_mem);
            assert_eq!(fs.cluster_size, 512);
            assert_eq!(fs.partition.data, small_fat_volume(b"abc"));
        }
        Backend::Archive(_) => panic!("a volume was made"),
    }
    // An archive has nothing to drop.
    let image = flat_image(&[(b"y", Some(b"root y"))]);
    let mut archive: Backend<Gzip, RamDisk> =
        Backend::Archive(Squashfs::new(&image, Gzip).unwrap());
    assert_eq!(archive.unmount(0), Ok(()));
    let mut root = archive.root(0).unwrap();
    assert!(root.lookup(&mut archive, b"y", ROOT).is_ok());
}

#[test]
fn read_only_file_systems_have_no_file_identifiers() {
    let image = flat_image(&[(b"y", Some(b"root y"))]);
    let mut archive: Backend<Gzip, RamDisk> =
        Backend::Archive(Squashfs::new(&image, Gzip).unwrap());
    assert!(archive.fid(b"/y", 0).is_none());
    let mut volume: Backend<Gzip, RamDisk> =
        Backend::Fat(FatFs::new(RamDisk::new(small_fat_volume(b"abc")), false).unwrap());
    assert!(volume.fid(b"/boot.cfg", 0).is_none());
    let mut mount = Vfs::new(archive, b"/");
    assert!(mount.fid(b"/y").is_none());
    let mut empty: Vfs<Backend<Gzip, RamDisk>> = Vfs::null();
    assert!(empty.fid(b"/y").is_none());
}

#[test]
fn mount_keeps_what_was_there_and_covers_one_entry() {
    let root_image = flat_image(&[(b"a", None), (b"b", None), (b"y", Some(b"root y"))]);
    let other_image = flat_image(&[(b"x", Some(b"from the second"))]);
    let mut ctx = mounted(&root_image);
    let a = vfs_open(&mut ctx, "/a").unwrap();
    let y = vfs_open(&mut ctx, "/y").unwrap();
    let entries = ctx.nodes.len();
    assert_eq!(add_vfs(&mut ctx, "/b", Squashfs::new(&other_image, Gzip).unwrap()), Ok(()));
    // The path was resolved on the way: one more entry, and one more slot.
    let b = vfs_open(&mut ctx, "/b").unwrap();
    assert_eq!(ctx.nodes.len(), entries + 1);
    assert_eq!(ctx.mounts.len(), 2);
    assert_eq!(ctx.mounts[0].mount_point, Some(b"/".to_vec()));
    assert_eq!(ctx.mounts[0].handle, 0);
    assert_eq!(ctx.mounts[0].vnode_covered, None);
    assert_eq!(ctx.mounts[1].mount_point, Some(b"/b".to_vec()));
    assert_eq!(ctx.mounts[1].handle, 1);
    assert_eq!(ctx.mounts[1].vnode_covered, Some(b));
    assert_eq!((ctx.mounts[1].flags, ctx.mounts[1].block_size), (0, 0));
    assert_eq!(ctx.nodes[b].vnode.vfs_mounted_here, Some(1));
    assert_eq!(ctx.nodes[b].vnode.parent_vfs, 0);
    assert!(ctx.nodes[b].children.is_empty());
    assert_eq!(ctx.nodes[a].vnode.vfs_mounted_here, None);
    assert_eq!(ctx.nodes[y].vnode.vfs_mounted_here, None);
    assert_eq!(ctx.nodes[0].children.len(), 3);
    assert_eq!(vfs_open(&mut ctx, "/a"), Ok(a));
    assert_eq!(vfs_open(&mut ctx, "/y"), Ok(y));
}

#[test]
fn mount_at_a_path_that_does_not_resolve_asks_no_backend() {
    let root_image = flat_image(&[(b"a", None)]);
    let mut ctx: VfsContext<Backend<Gzip, RamDisk>> = VfsContext::new();
    let archive = Backend::Archive(Squashfs::new(&root_image, Gzip).unwrap());
    assert_eq!(add_vfs(&mut ctx, "/", archive), Ok(()));
    // This volume fails its mount, so an answer of `TargetNotFound` shows
    // that it was not asked.
    let mut disk = small_fat_volume(b"abc");
    disk[19..21].copy_from_slice(&300u16.to_le_bytes());
    disk[22..24].copy_from_slice(&200u16.to_le_bytes());
    let volume = Backend::Fat(FatFs::new(RamDisk::new(disk), true).unwrap());
    assert_eq!(add_vfs(&mut ctx, "/a/missing", volume), Err(MountError::TargetNotFound));
    assert_eq!(ctx.mounts.len(), 1);
    // The part of the path that resolved is cached; nothing is covered.
    assert_eq!(ctx.nodes.len(), 2);
    assert!(ctx.nodes.iter().all(|n| n.vnode.vfs_mounted_here.is_none()));
}

#[test]
fn removal_leaves_the_other_mounts_in_their_places() {
    let root_image = flat_image(&[(b"a", None), (b"b", None)]);
    let other_image = flat_image(&[(b"x", Some(b"from the second"))]);
    let mut ctx = mounted(&root_image);
    assert_eq!(add_vfs(&mut ctx, "/a", Squashfs::new(&other_image, Gzip).unwrap()), Ok(()));
    assert_eq!(add_vfs(&mut ctx, "/b", Squashfs::new(&other_image, Gzip).unwrap()), Ok(()));
    let a = vfs_open(&mut ctx, "/a").unwrap();
    let b = vfs_open(&mut ctx, "/b").unwrap();
    let ax = vfs_open(&mut ctx, "/a/x").unwrap();
    let bx = vfs_open(&mut ctx, "/b/x").unwrap();
    assert_eq!(del_vfs(&mut ctx, "/a"), Ok(()));
    assert_eq!(ctx.mounts.len(), 3);
    assert!(ctx.mounts[1].fs.is_none());
    assert_eq!(ctx.mounts[1].mount_point, None);
    assert_eq!(ctx.mounts[1].handle, 1);
    assert!(ctx.mounts[2].fs.is_some());
    assert_eq!(ctx.mounts[2].mount_point, Some(b"/b".to_vec()));
    assert_eq!(ctx.mounts[2].handle, 2);
    assert_eq!(ctx.mounts[2].vnode_covered, Some(b));
    assert_eq!(ctx.mounts[0].mount_point, Some(b"/".to_vec()));
    assert_eq!(ctx.mount_count(), 2);
    // The entry that was covered is covered no more and has no children.
    assert_eq!(ctx.nodes[a].vnode.vfs_mounted_here, None);
    assert!(ctx.nodes[a].children.is_empty());
    assert_eq!(ctx.nodes[b].vnode.vfs_mounted_here, Some(2));
    assert_eq!(ctx.nodes[b].children.len(), 1);
    assert_eq!(vfs_open(&mut ctx, "/b/x"), Ok(bx));
    assert_eq!(vfs_open(&mut ctx, "/a/x"), Err(VfsError::NotFound));
    assert_eq!(ctx.nodes[ax].parent, Some(a));
    assert_eq!(read_all(&mut ctx, "/b/x"), Ok(b"from the second".to_vec()));
}

#[test]
fn resolution_stops_at_the_first_name_that_misses() {
    let mut ctx = mounted(&image_with_a_b_txt());
    assert_eq!(vfs_open(&mut ctx, "/a/missing/b.txt"), Err(VfsError::NotFound));
    // `/a` was resolved and is cached; nothing below it is.
    assert_eq!(ctx.nodes.len(), 2);
    assert_eq!(ctx.nodes[1].parent, Some(0));
    assert!(ctx.nodes[1].children.is_empty());
    assert_eq!(vfs_open(&mut ctx, "/a"), Ok(1));
    assert_eq!(ctx.nodes.len(), 2);
}

#[test]
fn archive_reader_knows_where_its_tables_lie() {
    let image = image_with_a_b_txt();
    let fs = Squashfs::new(&image, Gzip).unwrap();
    let sb = fs.superblock;
    let ranges = fs.ranges();
    assert_eq!(ranges.data_table, (96, sb.inode_table as usize));
    assert_eq!(ranges.id_table, (sb.id_table as usize, sb.bytes_used as usize));
    assert_eq!(ranges.fragment_table, None);
    assert_eq!(ranges.export_table, None);
    assert_eq!(ranges.xattr_table, None);
    assert!(sb.inode_table < sb.dir_table && sb.dir_table < sb.id_table);
}
