use kernel::drivers::fs::vfs::VfsError;
use kernel::libs::decompress::Decompressor;
use kernel::libs::gzip::{
    adler32, build_fixed, build_huffman, uncompress_data, CompressionErrors, Gzip,
    InflateContext, ZlibCompressionLevel,
};

const HELLO_WORLD: [u8; 19] = [
    0x78, 0xda, 0xcb, 0x48, 0xcd, 0xc9, 0xc9, 0x57, 0x28, 0xcf, 0x2f, 0xca, 0x49, 0x01, 0x00,
    0x1a, 0x0b, 0x04, 0x5d,
];

const STORED: [u8; 23] = [
    0x78, 0x01, 0x01, 0x0c, 0x00, 0xf3, 0xff, 0x73, 0x74, 0x6f, 0x72, 0x65, 0x64, 0x20, 0x62,
    0x79, 0x74, 0x65, 0x73, 0x1f, 0xcf, 0x04, 0xd9,
];

const TWO_BLOCKS: [u8; 26] = [
    0x78, 0x9c, 0x4a, 0x4c, 0x4a, 0x4e, 0x84, 0x21, 0x00, 0x00, 0x00, 0x00, 0xff, 0xff, 0xab,
    0xa8, 0xac, 0xaa, 0xa8, 0xac, 0x02, 0x00, 0x43, 0x5f, 0x07, 0x6f,
];

const DYNAMIC: [u8; 45] = [
    0x78, 0xda, 0xcd, 0x8b, 0xc9, 0x0d, 0x00, 0x30, 0x0c, 0xc2, 0x66, 0x35, 0xc7, 0xfe, 0x2b,
    0x34, 0x69, 0x97, 0xe8, 0x03, 0x64, 0x21, 0x03, 0xb2, 0x28, 0x12, 0x28, 0xad, 0x31, 0x4c,
    0x94, 0x98, 0x0c, 0x22, 0x6e, 0xf7, 0xcd, 0xeb, 0xfd, 0x78, 0x39, 0x13, 0x73, 0x4c, 0x92,
];

fn dynamic_plain() -> Vec<u8> {
    let alphabet = b"aaaaaaaabbbbccd e";
    (0..200usize).map(|i| alphabet[(i * i * 7 + i / 3) % 17]).collect()
}

#[test]
fn adler32_of_known_strings() {
    assert_eq!(adler32(b""), 1);
    assert_eq!(adler32(b"a"), 0x0062_0062);
    assert_eq!(adler32(b"hello"), 0x062c_0215);
    assert_eq!(adler32(b"Wikipedia"), 0x11E6_0398);
}

#[test]
fn adler32_wraps_at_the_modulus() {
    let data = vec![0xffu8; 5000];
    // a = (1 + 5000 * 255) % 65521, b = sum of the running a's % 65521
    let mut a: u64 = 1;
    let mut b: u64 = 0;
    for byte in &data {
        a = (a + *byte as u64) % 65521;
        b = (b + a) % 65521;
    }
    assert_eq!(adler32(&data) as u64, (b << 16) | a);
}

#[test]
fn fixed_block_decompresses() {
    assert_eq!(uncompress_data(&HELLO_WORLD), Ok(b"hello world".to_vec()));
}

#[test]
fn stored_block_decompresses() {
    assert_eq!(uncompress_data(&STORED), Ok(b"stored bytes".to_vec()));
}

#[test]
fn dynamic_block_decompresses() {
    assert_eq!(uncompress_data(&DYNAMIC), Ok(dynamic_plain()));
}

#[test]
fn stream_of_several_blocks_decompresses() {
    assert_eq!(uncompress_data(&TWO_BLOCKS), Ok(b"abcabcabcabcxyzxyz".to_vec()));
}

#[test]
fn match_may_overlap_what_it_writes() {
    // "abc" then a match of length 9 at distance 3
    let out = uncompress_data(&TWO_BLOCKS).unwrap();
    assert_eq!(&out[..12], b"abcabcabcabc");
}

#[test]
fn header_with_other_method_is_not_deflate() {
    let mut bytes = HELLO_WORLD.to_vec();
    bytes[0] = 0x79;
    assert_eq!(uncompress_data(&bytes), Err(CompressionErrors::NotDeflate));
    assert_eq!(uncompress_data(&[]), Err(CompressionErrors::NotDeflate));
    assert_eq!(uncompress_data(&[0x78]), Err(CompressionErrors::NotDeflate));
}

#[test]
fn header_with_large_window_is_refused() {
    let mut bytes = HELLO_WORLD.to_vec();
    bytes[0] = 0x88;
    assert_eq!(uncompress_data(&bytes), Err(CompressionErrors::UnsupportedWindowSize));
}

#[test]
fn header_check_bits_are_checked() {
    let mut bytes = HELLO_WORLD.to_vec();
    bytes[1] = 0xdb;
    assert_eq!(uncompress_data(&bytes), Err(CompressionErrors::FCheckFailed));
}

#[test]
fn preset_dictionary_is_refused() {
    // 0x78 0x20: check bits right, dictionary bit set
    let mut bytes = HELLO_WORLD.to_vec();
    bytes[1] = 0x20;
    assert_eq!((0x78u32 * 256 + 0x20) % 31, 0);
    assert_eq!(uncompress_data(&bytes), Err(CompressionErrors::UnsupportedDictionary));
}

#[test]
fn wrong_checksum_is_reported() {
    let mut bytes = HELLO_WORLD.to_vec();
    let last = bytes.len() - 1;
    bytes[last] ^= 1;
    assert_eq!(uncompress_data(&bytes), Err(CompressionErrors::FailedChecksum));
}

#[test]
fn truncated_stream_fails() {
    assert_eq!(uncompress_data(&HELLO_WORLD[..4]), Err(CompressionErrors::FailedCompression));
    let mut bytes = HELLO_WORLD[..8].to_vec();
    bytes.extend_from_slice(&[0, 0, 0, 0]);
    assert_eq!(uncompress_data(&bytes), Err(CompressionErrors::FailedCompression));
}

#[test]
fn reserved_block_type_fails() {
    // final block of type 3
    let bytes = [0x78, 0x01, 0x07, 0x00, 0x00, 0x00, 0x00, 0x01];
    assert_eq!(uncompress_data(&bytes), Err(CompressionErrors::FailedCompression));
}

#[test]
fn stored_block_with_wrong_complement_fails() {
    let mut bytes = STORED.to_vec();
    bytes[5] ^= 0x01;
    assert_eq!(uncompress_data(&bytes), Err(CompressionErrors::FailedCompression));
}

#[test]
fn bits_are_read_from_the_least_significant_end() {
    let mut ctx = InflateContext::new(&[0b1010_0101, 0xff]);
    assert_eq!(ctx.get_bit(), Ok(true));
    assert_eq!(ctx.get_bit(), Ok(false));
    assert_eq!(ctx.get_bits(3), Ok(0b001));
    assert_eq!(ctx.get_bits(5), Ok(0b11_101));
    assert_eq!(ctx.get_bits(6), Ok(0b11_1111));
    assert_eq!(ctx.get_bit(), Err(CompressionErrors::FailedCompression));
}

#[test]
fn bits_with_base_add_the_base() {
    let mut ctx = InflateContext::new(&[0b0000_0110]);
    assert_eq!(ctx.get_bits_base(3, 11), Ok(11 + 6));
    assert_eq!(ctx.get_bits_base(0, 258), Ok(258));
    assert_eq!(ctx.get_bits(33), Err(CompressionErrors::FailedCompression));
}

#[test]
fn peek_reads_zero_before_the_output() {
    let mut ctx = InflateContext::new(&[]);
    ctx.emit(7);
    ctx.emit(9);
    assert_eq!(ctx.peek(1), 9);
    assert_eq!(ctx.peek(2), 7);
    assert_eq!(ctx.peek(3), 0);
    assert_eq!(ctx.peek(0), 0);
}

#[test]
fn huffman_table_of_a_small_code() {
    // lengths 2, 1, 3, 3: symbol 1 has the shortest code
    let huff = build_huffman(&[2, 1, 3, 3], 4).unwrap();
    assert_eq!(&huff.counts[..4], &[0, 1, 1, 2]);
    assert_eq!(&huff.symbols[..4], &[1, 0, 2, 3]);
    // codes: 1 -> 0, 0 -> 10, 2 -> 110, 3 -> 111
    let mut ctx = InflateContext::new(&[0b1111_1010, 0b0000_0000]);
    assert_eq!(ctx.decode(&huff), Ok(1));
    assert_eq!(ctx.decode(&huff), Ok(0));
    assert_eq!(ctx.decode(&huff), Ok(3));
    assert_eq!(ctx.decode(&huff), Ok(2));
}

#[test]
fn huffman_table_ignores_symbols_without_a_code() {
    let huff = build_huffman(&[0, 1, 0, 1], 4).unwrap();
    assert_eq!(huff.counts[0], 0);
    assert_eq!(huff.counts[1], 2);
    assert_eq!(&huff.symbols[..2], &[1, 3]);
}

#[test]
fn huffman_table_refuses_bad_input() {
    assert!(build_huffman(&[16], 1).is_err());
    assert!(build_huffman(&[1, 1], 3).is_err());
    assert!(build_huffman(&[1u8; 300], 289).is_err());
}

#[test]
fn fixed_tables_have_the_standard_shape() {
    let (lens, dists) = build_fixed().unwrap();
    assert_eq!(lens.counts[7], 24);
    assert_eq!(lens.counts[8], 152);
    assert_eq!(lens.counts[9], 112);
    assert_eq!(lens.symbols[0], 256);
    assert_eq!(lens.symbols[24], 0);
    assert_eq!(dists.counts[5], 30);
    assert_eq!(dists.symbols[29], 29);
}

#[test]
fn compression_level_from_header_bits() {
    assert_eq!(ZlibCompressionLevel::from_bits(0), Some(ZlibCompressionLevel::Fastest));
    assert_eq!(ZlibCompressionLevel::from_bits(1), Some(ZlibCompressionLevel::Fast));
    assert_eq!(ZlibCompressionLevel::from_bits(2), Some(ZlibCompressionLevel::Default));
    assert_eq!(ZlibCompressionLevel::from_bits(3), Some(ZlibCompressionLevel::Best));
    assert_eq!(ZlibCompressionLevel::from_bits(4), None);
}

#[test]
fn gzip_as_decompressor_maps_failures() {
    assert_eq!(Gzip.decompress(&HELLO_WORLD), Ok(b"hello world".to_vec()));
    assert_eq!(Gzip.decompress(&HELLO_WORLD[..6]), Err(VfsError::DecompressFailure));
}
