use kernel::drivers::fs::initramfs::superblock::{
    SquashfsCompressionType, SquashfsSuperblock, ABSENT_TABLE,
};
use kernel::drivers::fs::vfs::VfsError;

fn put16(bytes: &mut [u8], at: usize, v: u16) {
    bytes[at..at + 2].copy_from_slice(&v.to_le_bytes());
}

fn put32(bytes: &mut [u8], at: usize, v: u32) {
    bytes[at..at + 4].copy_from_slice(&v.to_le_bytes());
}

fn put64(bytes: &mut [u8], at: usize, v: u64) {
    bytes[at..at + 8].copy_from_slice(&v.to_le_bytes());
}

fn sample() -> Vec<u8> {
    let mut b = vec![0u8; 96];
    put32(&mut b, 0, 0x73717368);
    put32(&mut b, 4, 2);
    put32(&mut b, 8, 0x1234_5678);
    put32(&mut b, 12, 0x20000);
    put32(&mut b, 16, 1);
    put16(&mut b, 20, 1);
    put16(&mut b, 22, 0x11);
    put16(&mut b, 24, 0x00C0);
    put16(&mut b, 26, 1);
    put16(&mut b, 28, 4);
    put16(&mut b, 30, 0);
    put64(&mut b, 32, 0x0000_0000_0002_0040);
    put64(&mut b, 40, 0x0103);
    put64(&mut b, 48, 0x00FB);
    put64(&mut b, 56, ABSENT_TABLE);
    put64(&mut b, 64, 0x7B);
    put64(&mut b, 72, 0xA4);
    put64(&mut b, 80, 0xD5);
    put64(&mut b, 88, 0xED);
    b
}

#[test]
fn superblock_fields_are_read_little_endian() {
    let sb = SquashfsSuperblock::new(&sample()).unwrap();
    assert_eq!(sb.magic, 0x73717368);
    assert_eq!(sb.inode_count, 2);
    assert_eq!(sb.mod_time, 0x1234_5678);
    assert_eq!(sb.block_size, 0x20000);
    assert_eq!(sb.frag_count, 1);
    assert_eq!(sb.compressor(), SquashfsCompressionType::Gzip);
    assert_eq!(sb.block_log, 0x11);
    assert_eq!(sb.flags, 0xC0);
    assert_eq!(sb.id_count, 1);
    assert_eq!(sb.ver_major, 4);
    assert_eq!(sb.ver_minor, 0);
    assert_eq!(sb.root_inode, 0x0002_0040);
    assert_eq!(sb.bytes_used, 0x0103);
    assert_eq!(sb.id_table, 0xFB);
    assert_eq!(sb.xattr_table, u64::MAX);
    assert_eq!(sb.inode_table, 0x7B);
    assert_eq!(sb.dir_table, 0xA4);
    assert_eq!(sb.frag_table, 0xD5);
    assert_eq!(sb.export_table, 0xED);
}

#[test]
fn superblock_rejects_bad_magic() {
    let mut b = sample();
    b[0] ^= 0xFF;
    assert_eq!(SquashfsSuperblock::new(&b), Err(VfsError::Corrupt));
}
