use kernel::drivers::fs::initramfs::chunk_reader::{Chunk, ChunkReader};
use kernel::drivers::fs::vfs::VfsError;
use kernel::libs::gzip::Gzip;

const HELLO_WORLD: [u8; 19] = [
    0x78, 0xda, 0xcb, 0x48, 0xcd, 0xc9, 0xc9, 0x57, 0x28, 0xcf, 0x2f, 0xca, 0x49, 0x01, 0x00,
    0x1a, 0x0b, 0x04, 0x5d,
];

fn stored(payload: &[u8]) -> Vec<u8> {
    let mut chunk = ((payload.len() as u16) | 0x8000).to_le_bytes().to_vec();
    chunk.extend_from_slice(payload);
    chunk
}

fn compressed(stream: &[u8]) -> Vec<u8> {
    let mut chunk = (stream.len() as u16).to_le_bytes().to_vec();
    chunk.extend_from_slice(stream);
    chunk
}

fn table(chunks: &[Vec<u8>]) -> Vec<u8> {
    chunks.concat()
}

#[test]
fn slice_within_one_chunk() {
    let data = table(&[stored(b"0123456789"), stored(b"abcdefghij")]);
    let mut reader = ChunkReader::new(&data, Gzip).unwrap();
    assert_eq!(reader.get_slice(0, 2, 5), Ok(b"23456".to_vec()));
    assert_eq!(reader.get_slice(0, 0, 10), Ok(b"0123456789".to_vec()));
    assert_eq!(reader.get_slice(12, 7, 3), Ok(b"hij".to_vec()));
}

#[test]
fn slice_across_chunk_boundaries() {
    let data = table(&[stored(b"0123"), stored(b"abc"), stored(b"XYZW")]);
    let mut reader = ChunkReader::new(&data, Gzip).unwrap();
    assert_eq!(reader.get_slice(0, 2, 4), Ok(b"23ab".to_vec()));
    assert_eq!(reader.get_slice(0, 1, 9), Ok(b"123abcXYZ".to_vec()));
    assert_eq!(reader.get_slice(6, 3, 2), Ok(b"XY".to_vec()));
}

#[test]
fn slice_of_exactly_the_requested_size() {
    // a range that ends inside a later chunk takes only what is asked for
    let data = table(&[stored(b"01"), stored(b"abcdefgh")]);
    let mut reader = ChunkReader::new(&data, Gzip).unwrap();
    let out = reader.get_slice(0, 1, 3).unwrap();
    assert_eq!(out, b"1ab".to_vec());
    assert_eq!(out.len(), 3);
}

#[test]
fn offset_past_the_first_chunk_runs_on() {
    let data = table(&[stored(b"0123"), stored(b"abcd")]);
    let mut reader = ChunkReader::new(&data, Gzip).unwrap();
    assert_eq!(reader.get_slice(0, 5, 2), Ok(b"bc".to_vec()));
    assert_eq!(reader.get_slice(0, 4, 0), Ok(Vec::new()));
}

#[test]
fn chunks_are_found_by_where_they_start() {
    // compressed chunks have no fixed stride: the second chunk starts at 21
    let data = table(&[compressed(&HELLO_WORLD), stored(b"tail")]);
    let mut reader = ChunkReader::new(&data, Gzip).unwrap();
    assert_eq!(reader.get_slice(21, 0, 4), Ok(b"tail".to_vec()));
    assert_eq!(reader.get_slice(0, 6, 5), Ok(b"world".to_vec()));
    assert_eq!(reader.get_slice(1, 0, 1), Err(VfsError::Corrupt));
    assert_eq!(reader.get_slice(13, 0, 1), Err(VfsError::Corrupt));
    assert_eq!(reader.get_slice(27, 0, 1), Err(VfsError::Corrupt));
}

#[test]
fn compressed_chunk_is_decompressed_once_and_still_found() {
    let data = table(&[compressed(&HELLO_WORLD), stored(b"tail")]);
    let mut reader = ChunkReader::new(&data, Gzip).unwrap();
    assert_eq!(reader.get_slice(0, 0, 11), Ok(b"hello world".to_vec()));
    // the chunk is now held decompressed; later chunks stay where they were
    assert_eq!(reader.get_slice(0, 0, 11), Ok(b"hello world".to_vec()));
    assert_eq!(reader.get_slice(21, 1, 3), Ok(b"ail".to_vec()));
    assert_eq!(reader.get_slice(0, 9, 5), Ok(b"ldtai".to_vec()));
}

#[test]
fn range_past_the_last_chunk_is_corrupt() {
    let data = table(&[stored(b"0123")]);
    let mut reader = ChunkReader::new(&data, Gzip).unwrap();
    assert_eq!(reader.get_slice(0, 0, 5), Err(VfsError::Corrupt));
    assert_eq!(reader.get_slice(0, 5, 0), Err(VfsError::Corrupt));
}

#[test]
fn chunk_that_does_not_decompress_fails_the_read() {
    let data = table(&[compressed(&[0x78, 0xda, 0xff, 0xff, 0, 0, 0, 0]), stored(b"ok")]);
    let mut reader = ChunkReader::new(&data, Gzip).unwrap();
    assert_eq!(reader.get_slice(0, 0, 1), Err(VfsError::DecompressFailure));
    assert_eq!(reader.get_slice(10, 0, 2), Ok(b"ok".to_vec()));
}

#[test]
fn table_that_ends_inside_a_chunk_is_corrupt() {
    let mut data = stored(b"0123");
    data.pop();
    assert!(matches!(ChunkReader::new(&data, Gzip), Err(VfsError::Corrupt)));
    assert!(matches!(ChunkReader::new(&[0x01], Gzip), Err(VfsError::Corrupt)));
    assert!(ChunkReader::new(&[], Gzip).is_ok());
}

#[test]
fn empty_table_has_no_chunks() {
    let mut reader = ChunkReader::new(&[], Gzip).unwrap();
    assert_eq!(reader.get_slice(0, 0, 0), Err(VfsError::Corrupt));
}

#[test]
fn chunk_header_fields() {
    let chunk = Chunk { data: stored(b"abc") };
    assert_eq!(chunk.header(), 0x8003);
    assert_eq!(chunk.len(), 3);
    assert!(!chunk.is_compressed());
    let chunk = Chunk { data: compressed(&HELLO_WORLD) };
    assert_eq!(chunk.header(), 19);
    assert_eq!(chunk.len(), 19);
    assert!(chunk.is_compressed());
}

#[test]
fn chunk_decompress_replaces_the_payload() {
    let mut chunk = Chunk { data: compressed(&HELLO_WORLD) };
    assert_eq!(chunk.decompress(&Gzip), Ok(()));
    assert_eq!(chunk.data, stored(b"hello world"));
    assert_eq!(chunk.decompress(&Gzip), Ok(()));
    assert_eq!(chunk.data, stored(b"hello world"));
}
