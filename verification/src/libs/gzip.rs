//! Decompression of zlib streams: a two-byte header, DEFLATE data, and an
//! Adler-32 checksum of the decompressed bytes.
//!
//! The decoder is specified by a reference decoder written as recursive
//! functions over the input bytes and a bit position; the executable decoder
//! is proved to compute what the reference decoder says.

use crate::drivers::fs::vfs::VfsError;
use crate::libs::decompress::Decompressor;
use vstd::arithmetic::power2::{lemma2_to64, lemma_pow2_strictly_increases, lemma_pow2_unfold, pow2};
use vstd::prelude::*;
use vstd::slice::slice_subrange;

verus! {

/// The compression level that a zlib header records.
#[derive(Clone, Copy, Debug, PartialEq, Eq, Structural)]
pub enum ZlibCompressionLevel {
    Fastest,
    Fast,
    Default,
    Best,
}

impl ZlibCompressionLevel {
    /// The level that the two-bit field `value` stands for.
    pub open spec fn of_bits(value: u8) -> Option<Self> {
        if value == 0 {
            Some(Self::Fastest)
        } else if value == 1 {
            Some(Self::Fast)
        } else if value == 2 {
            Some(Self::Default)
        } else if value == 3 {
            Some(Self::Best)
        } else {
            None
        }
    }

    /// Decodes the level field of a zlib header; `None` for a value that
    /// does not fit in two bits.
    pub fn from_bits(value: u8) -> (r: Option<Self>)
        ensures
            r == Self::of_bits(value),
    {
        match value {
            0 => Some(Self::Fastest),
            1 => Some(Self::Fast),
            2 => Some(Self::Default),
            3 => Some(Self::Best),
            _ => None,
        }
    }
}

/// Why a zlib stream could not be decompressed.
#[derive(Clone, Copy, Debug, PartialEq, Eq, Structural)]
pub enum CompressionErrors {
    /// The header names a method other than DEFLATE, or is cut short.
    NotDeflate,
    /// The header names a window of more than 32 KiB.
    UnsupportedWindowSize,
    /// The header's check bits are wrong.
    FCheckFailed,
    /// The stream asks for a preset dictionary.
    UnsupportedDictionary,
    /// The decompressed bytes do not have the checksum that the stream ends
    /// with.
    FailedChecksum,
    /// The DEFLATE data is malformed or cut short.
    FailedCompression,
}

/// The modulus of the Adler-32 checksum.
pub const ADLER_MODULUS: u32 = 65521;

/// The low half of the Adler-32 checksum of `bytes`: one more than the sum
/// of the bytes, modulo 65521.
pub open spec fn adler_a(bytes: Seq<u8>) -> int
    decreases bytes.len(),
{
    if bytes.len() == 0 {
        1
    } else {
        (adler_a(bytes.drop_last()) + bytes.last()) % 65521
    }
}

/// The high half of the Adler-32 checksum of `bytes`: the sum of the low
/// halves of all its non-empty prefixes, modulo 65521.
pub open spec fn adler_b(bytes: Seq<u8>) -> int
    decreases bytes.len(),
{
    if bytes.len() == 0 {
        0
    } else {
        (adler_b(bytes.drop_last()) + adler_a(bytes)) % 65521
    }
}

/// The Adler-32 checksum of `bytes`.
pub open spec fn spec_adler32(bytes: Seq<u8>) -> int {
    adler_b(bytes) * 0x1_0000 + adler_a(bytes)
}

/// Computes the Adler-32 checksum of `bytes`.
pub fn adler32(bytes: &[u8]) -> (r: u32)
    ensures
        r == spec_adler32(bytes@),
{
    let mut a: u32 = 1;
    let mut b: u32 = 0;
    let mut i: usize = 0;
    assert(bytes@.take(0) =~= Seq::<u8>::empty());
    while i < bytes.len()
        invariant
            i <= bytes.len(),
            a == adler_a(bytes@.take(i as int)),
            b == adler_b(bytes@.take(i as int)),
            a < 65521,
            b < 65521,
        decreases bytes.len() - i,
    {
        assert(bytes@.take(i + 1).drop_last() =~= bytes@.take(i as int));
        a = (a + bytes[i] as u32) % ADLER_MODULUS;
        b = (b + a) % ADLER_MODULUS;
        i += 1;
    }
    assert(bytes@.take(i as int) =~= bytes@);
    b * 0x1_0000 + a
}

/// Bit `k` of `byte`, counted from the least significant.
pub open spec fn spec_bit_of(byte: u8, k: u8) -> bool {
    (byte >> k) & 1 == 1
}

/// Bit `k` of `byte`, counted from the least significant.
pub fn bit_of(byte: u8, k: u8) -> (r: bool)
    requires
        k < 8,
    ensures
        r == spec_bit_of(byte, k),
{
    (byte >> k) & 1 == 1
}

/// `acc` with bit `k` set where `bit` holds.
pub open spec fn spec_with_bit(acc: u32, bit: bool, k: u32) -> u32 {
    if bit {
        acc | (1u32 << k)
    } else {
        acc
    }
}

/// `acc` with bit `k` set where `bit` holds.
pub fn with_bit(acc: u32, bit: bool, k: u32) -> (r: u32)
    requires
        k < 32,
    ensures
        r == spec_with_bit(acc, bit, k),
{
    if bit {
        acc | (1u32 << k)
    } else {
        acc
    }
}

/// The bit at position `pos` of the stream `input`. Bits are counted from
/// the least significant bit of the first byte. `None` past the end.
pub open spec fn bit_at(input: Seq<u8>, pos: int) -> Option<bool> {
    if 0 <= pos && pos / 8 < input.len() {
        Some(spec_bit_of(input[pos / 8], (pos % 8) as u8))
    } else {
        None
    }
}

/// The number that the bits `k` to `n` of the field at `pos` add to `acc`:
/// the field's first bit is the number's least significant.
pub open spec fn bits_from(input: Seq<u8>, pos: int, n: int, k: int, acc: u32) -> Option<u32>
    decreases n - k,
{
    if k >= n {
        Some(acc)
    } else {
        match bit_at(input, pos + k) {
            None => None,
            Some(bit) => bits_from(input, pos, n, k + 1, spec_with_bit(acc, bit, k as u32)),
        }
    }
}

/// The number in the `n`-bit field at position `pos`; `None` where the field
/// runs past the end of the stream or is wider than 32 bits.
pub open spec fn bits_at(input: Seq<u8>, pos: int, n: int) -> Option<u32> {
    if n > 32 {
        None
    } else {
        bits_from(input, pos, n, 0, 0)
    }
}

/// A field of `n` bits at `pos`, added to `base`.
pub open spec fn bits_base_at(input: Seq<u8>, pos: int, n: int, base: int) -> Option<int> {
    match bits_at(input, pos, n) {
        Some(v) => Some(base + v),
        None => None,
    }
}

/// A canonical Huffman code, as a decoding table: how many codes there are
/// of each length, and the symbols in the order of their codes.
pub struct Huff {
    pub counts: Vec<u16>,
    pub symbols: Vec<u16>,
}

/// What a decoding table holds.
pub struct HuffView {
    pub counts: Seq<u16>,
    pub symbols: Seq<u16>,
}

impl View for Huff {
    type V = HuffView;

    open spec fn view(&self) -> HuffView {
        HuffView { counts: self.counts@, symbols: self.symbols@ }
    }
}

impl HuffView {
    /// A table has a count for each of the lengths 0 to 15 and room for 288
    /// symbols.
    pub open spec fn wf(self) -> bool {
        self.counts.len() == 16 && self.symbols.len() == 288
    }
}

/// `n` zeros.
pub open spec fn zeros16(n: int) -> Seq<u16> {
    Seq::new(n as nat, |i: int| 0u16)
}

/// `n` zeros.
pub open spec fn zeros32(n: int) -> Seq<u32> {
    Seq::new(n as nat, |i: int| 0u32)
}

/// The counts of code lengths among `lengths[i..size]`, added to `counts`;
/// `None` where a length is over 15.
pub open spec fn count_lengths(lengths: Seq<u8>, size: int, i: int, counts: Seq<u16>) -> Option<
    Seq<u16>,
>
    decreases size - i,
{
    if i >= size {
        Some(counts)
    } else if lengths[i] > 15 {
        None
    } else {
        count_lengths(
            lengths,
            size,
            i + 1,
            counts.update(lengths[i] as int, (counts[lengths[i] as int] + 1) as u16),
        )
    }
}

/// For each length from `i` on, the number of codes that are shorter, where
/// `count` codes are shorter than `i`.
pub open spec fn offsets_of(counts: Seq<u16>, i: int, count: u32, offsets: Seq<u32>) -> Seq<u32>
    decreases 16 - i,
{
    if i >= 16 {
        offsets
    } else {
        offsets_of(counts, i + 1, (count + counts[i]) as u32, offsets.update(i, count))
    }
}

/// The symbols `i` to `size`, each put in the next free place among the
/// symbols of its length.
pub open spec fn place_symbols(
    lengths: Seq<u8>,
    size: int,
    i: int,
    offsets: Seq<u32>,
    symbols: Seq<u16>,
) -> Seq<u16>
    decreases size - i,
{
    if i >= size {
        symbols
    } else if lengths[i] != 0 && lengths[i] <= 15 {
        let slot = offsets[lengths[i] as int];
        place_symbols(
            lengths,
            size,
            i + 1,
            offsets.update(lengths[i] as int, (slot + 1) as u32),
            if slot < 288 {
                symbols.update(slot as int, i as u16)
            } else {
                symbols
            },
        )
    } else {
        place_symbols(lengths, size, i + 1, offsets, symbols)
    }
}

/// The decoding table of the canonical code in which symbol `i`, for `i`
/// below `size`, has a code of `lengths[i]` bits, and no code where that
/// is 0. `None` for more than 288 symbols, more than there are lengths, or
/// a length over 15.
pub open spec fn huffman_of(lengths: Seq<u8>, size: int) -> Option<HuffView> {
    if size < 0 || size > 288 || size > lengths.len() {
        None
    } else {
        match count_lengths(lengths, size, 0, zeros16(16)) {
            None => None,
            Some(counted) => {
                let counts = counted.update(0, 0u16);
                Some(
                    HuffView {
                        counts,
                        symbols: place_symbols(
                            lengths,
                            size,
                            0,
                            offsets_of(counts, 0, 0, zeros32(16)),
                            zeros16(288),
                        ),
                    },
                )
            },
        }
    }
}

/// `n` zeros.
fn zero_vec16(n: usize) -> (v: Vec<u16>)
    ensures
        v@ == zeros16(n as int),
{
    let mut v: Vec<u16> = Vec::new();
    let mut i: usize = 0;
    while i < n
        invariant
            i <= n,
            v@ == zeros16(i as int),
        decreases n - i,
    {
        v.push(0);
        assert(v@ =~= zeros16(i + 1));
        i += 1;
    }
    v
}

/// `n` zeros.
fn zero_vec32(n: usize) -> (v: Vec<u32>)
    ensures
        v@ == zeros32(n as int),
{
    let mut v: Vec<u32> = Vec::new();
    let mut i: usize = 0;
    while i < n
        invariant
            i <= n,
            v@ == zeros32(i as int),
        decreases n - i,
    {
        v.push(0);
        assert(v@ =~= zeros32(i + 1));
        i += 1;
    }
    v
}

/// Builds the decoding table of a canonical Huffman code from the code
/// lengths of its first `size` symbols; see [`huffman_of`].
pub fn build_huffman(lengths: &[u8], size: usize) -> (r: Result<Huff, CompressionErrors>)
    ensures
        match r {
            Ok(huff) => huffman_of(lengths@, size as int) == Some(huff@) && huff@.wf(),
            Err(e) => e == CompressionErrors::FailedCompression && huffman_of(
                lengths@,
                size as int,
            ) is None,
        },
{
    if size > 288 || size > lengths.len() {
        return Err(CompressionErrors::FailedCompression);
    }
    let mut counts = zero_vec16(16);
    let mut i: usize = 0;
    while i < size
        invariant
            i <= size <= 288,
            size <= lengths.len(),
            counts.len() == 16,
            forall|l: int| 0 <= l < 16 ==> counts[l] <= i,
            count_lengths(lengths@, size as int, 0, zeros16(16)) == count_lengths(
                lengths@,
                size as int,
                i as int,
                counts@,
            ),
        decreases size - i,
    {
        let length = lengths[i];
        if length > 15 {
            return Err(CompressionErrors::FailedCompression);
        }
        let seen = counts[length as usize];
        counts.set(length as usize, seen + 1);
        i += 1;
    }
    counts.set(0, 0);

    let mut offsets = zero_vec32(16);
    let mut count: u32 = 0;
    let mut i: usize = 0;
    let ghost counted = counts@;
    while i < 16
        invariant
            i <= 16,
            counts@ == counted,
            counts.len() == 16,
            offsets.len() == 16,
            count <= i * 0x1_0000,
            forall|l: int| 0 <= l < 16 ==> offsets[l] <= 0x10_0000,
            offsets_of(counted, 0, 0, zeros32(16)) == offsets_of(
                counted,
                i as int,
                count,
                offsets@,
            ),
        decreases 16 - i,
    {
        offsets.set(i, count);
        count += counts[i] as u32;
        i += 1;
    }

    let mut symbols = zero_vec16(288);
    let mut i: usize = 0;
    let ghost first = offsets@;
    while i < size
        invariant
            i <= size <= 288,
            size <= lengths.len(),
            offsets.len() == 16,
            symbols.len() == 288,
            forall|l: int| 0 <= l < 16 ==> offsets[l] <= 0x10_0000 + i,
            place_symbols(lengths@, size as int, 0, first, zeros16(288)) == place_symbols(
                lengths@,
                size as int,
                i as int,
                offsets@,
                symbols@,
            ),
        decreases size - i,
    {
        let length = lengths[i];
        if length != 0 && length <= 15 {
            let slot = offsets[length as usize];
            if slot < 288 {
                symbols.set(slot as usize, i as u16);
            }
            offsets.set(length as usize, slot + 1);
        }
        i += 1;
    }

    Ok(Huff { counts, symbols })
}

/// Extra bits that follow each of the length symbols 257 to 285.
pub open spec fn length_bits() -> Seq<u8> {
    seq![
        0u8, 0, 0, 0, 0, 0, 0, 0, 1, 1, 1, 1, 2, 2, 2, 2, 3, 3, 3, 3, 4, 4, 4, 4, 5, 5, 5, 5, 0,
    ]
}

/// Match length that each of the length symbols 257 to 285 starts from.
pub open spec fn length_base() -> Seq<u16> {
    seq![
        3u16, 4, 5, 6, 7, 8, 9, 10, 11, 13, 15, 17, 19, 23, 27, 31, 35, 43, 51, 59, 67, 83, 99,
        115, 131, 163, 195, 227, 258,
    ]
}

/// Extra bits that follow each of the 30 distance symbols.
pub open spec fn dist_bits() -> Seq<u8> {
    seq![
        0u8, 0, 0, 0, 1, 1, 2, 2, 3, 3, 4, 4, 5, 5, 6, 6, 7, 7, 8, 8, 9, 9, 10, 10, 11, 11, 12,
        12, 13, 13,
    ]
}

/// Distance that each of the 30 distance symbols starts from.
pub open spec fn dist_base() -> Seq<u16> {
    seq![
        1u16, 2, 3, 4, 5, 7, 9, 13, 17, 25, 33, 49, 65, 97, 129, 193, 257, 385, 513, 769, 1025,
        1537, 2049, 3073, 4097, 6145, 8193, 12289, 16385, 24577,
    ]
}

/// The order in which a dynamic block lists the lengths of its code length
/// codes.
pub open spec fn code_length_order() -> Seq<u8> {
    seq![16u8, 17, 18, 0, 8, 7, 9, 6, 10, 5, 11, 4, 12, 3, 13, 2, 14, 1, 15]
}

/// Extra bits and base of the length symbol `257 + index`.
fn length_code(index: usize) -> (r: (usize, u64))
    requires
        index < 29,
    ensures
        r.0 == length_bits()[index as int],
        r.1 == length_base()[index as int],
{
    let bits: [u8; 29] = [
        0, 0, 0, 0, 0, 0, 0, 0, 1, 1, 1, 1, 2, 2, 2, 2, 3, 3, 3, 3, 4, 4, 4, 4, 5, 5, 5, 5, 0,
    ];
    let base: [u16; 29] = [
        3, 4, 5, 6, 7, 8, 9, 10, 11, 13, 15, 17, 19, 23, 27, 31, 35, 43, 51, 59, 67, 83, 99, 115,
        131, 163, 195, 227, 258,
    ];
    assert(bits@ =~= length_bits());
    assert(base@ =~= length_base());
    (bits[index] as usize, base[index] as u64)
}

/// Extra bits and base of the distance symbol `index`.
fn dist_code(index: usize) -> (r: (usize, u64))
    requires
        index < 30,
    ensures
        r.0 == dist_bits()[index as int],
        r.1 == dist_base()[index as int],
{
    let bits: [u8; 30] = [
        0, 0, 0, 0, 1, 1, 2, 2, 3, 3, 4, 4, 5, 5, 6, 6, 7, 7, 8, 8, 9, 9, 10, 10, 11, 11, 12, 12,
        13, 13,
    ];
    let base: [u16; 30] = [
        1, 2, 3, 4, 5, 7, 9, 13, 17, 25, 33, 49, 65, 97, 129, 193, 257, 385, 513, 769, 1025, 1537,
        2049, 3073, 4097, 6145, 8193, 12289, 16385, 24577,
    ];
    assert(bits@ =~= dist_bits());
    assert(base@ =~= dist_base());
    (bits[index] as usize, base[index] as u64)
}

/// Where the `index`-th code length of a dynamic block's header goes.
fn code_length_slot(index: usize) -> (r: usize)
    requires
        index < 19,
    ensures
        r == code_length_order()[index as int],
        r < 19,
{
    let clens: [u8; 19] = [16, 17, 18, 0, 8, 7, 9, 6, 10, 5, 11, 4, 12, 3, 13, 2, 14, 1, 15];
    assert(clens@ =~= code_length_order());
    clens[index] as usize
}

/// The symbol that the code at `pos` stands for, and where the code ends.
///
/// The code is read bit by bit. After `i` bits, `offs` is the place of the
/// bits read so far among the codes of `i` bits, and `base` the number of
/// shorter codes. `None` where the stream ends first or no code of up to 15
/// bits matches.
pub open spec fn decode_from(
    input: Seq<u8>,
    pos: int,
    huff: HuffView,
    i: int,
    base: int,
    offs: int,
) -> Option<(u16, int)>
    decreases 16 - i,
{
    if i < 1 || i > 15 {
        None
    } else {
        match bit_at(input, pos) {
            None => None,
            Some(bit) => {
                let next = 2 * offs + if bit {
                    1int
                } else {
                    0int
                };
                if next < huff.counts[i] {
                    if 0 <= base + next < 288 {
                        Some((huff.symbols[base + next], pos + 1))
                    } else {
                        None
                    }
                } else {
                    decode_from(input, pos + 1, huff, i + 1, base + huff.counts[i], next - huff.counts[i])
                }
            },
        }
    }
}

/// The symbol that the code at `pos` stands for, and where the code ends.
pub open spec fn decode_at(input: Seq<u8>, pos: int, huff: HuffView) -> Option<(u16, int)> {
    decode_from(input, pos, huff, 1, 0, 0)
}

/// The byte that lies `offset` bytes back from the end of `out`. Before the
/// start of the output lie zeros.
pub open spec fn back_byte(out: Seq<u8>, offset: int) -> u8 {
    if 1 <= offset <= out.len() {
        out[out.len() - offset]
    } else {
        0
    }
}

/// `out` after a match of `length` bytes at distance `offset` has been
/// copied, of which `k` bytes are copied already. The copy may overlap what
/// it writes.
pub open spec fn copy_run(out: Seq<u8>, length: int, offset: int, k: int) -> Seq<u8>
    decreases length - k,
{
    if k >= length {
        out
    } else {
        copy_run(out.push(back_byte(out, offset)), length, offset, k + 1)
    }
}

/// Whether a step from `pos` to `next` has read something and stayed inside
/// the stream.
pub open spec fn advanced(input: Seq<u8>, pos: int, next: int) -> bool {
    pos < next <= input.len() * 8
}

/// The rest of a compressed block: where the block ends, and the output
/// after it.
///
/// A literal symbol is a byte of output. Symbol 256 ends the block. A length
/// symbol starts a match: its extra bits, a distance symbol and that
/// symbol's extra bits follow, and the match is copied from the output.
/// `None` where the stream ends early, a code does not decode, or a symbol
/// has no meaning.
pub open spec fn inflate_from(
    input: Seq<u8>,
    pos: int,
    out: Seq<u8>,
    lens: HuffView,
    dists: HuffView,
) -> Option<(int, Seq<u8>)>
    decreases input.len() * 8 - pos,
{
    match decode_at(input, pos, lens) {
        None => None,
        Some((symbol, at1)) => {
            if !advanced(input, pos, at1) {
                None
            } else if symbol < 256 {
                inflate_from(input, at1, out.push(symbol as u8), lens, dists)
            } else if symbol == 256 {
                Some((at1, out))
            } else if symbol > 285 {
                None
            } else {
                let index = symbol - 257;
                match bits_base_at(
                    input,
                    at1,
                    length_bits()[index] as int,
                    length_base()[index] as int,
                ) {
                    None => None,
                    Some(length) => match decode_at(input, at1 + length_bits()[index], dists) {
                        None => None,
                        Some((distance, at3)) => {
                            if distance >= 30 {
                                None
                            } else {
                                match bits_base_at(
                                    input,
                                    at3,
                                    dist_bits()[distance as int] as int,
                                    dist_base()[distance as int] as int,
                                ) {
                                    None => None,
                                    Some(offset) => {
                                        let at4 = at3 + dist_bits()[distance as int];
                                        if !advanced(input, pos, at4) {
                                            None
                                        } else {
                                            inflate_from(
                                                input,
                                                at4,
                                                copy_run(out, length, offset, 0),
                                                lens,
                                                dists,
                                            )
                                        }
                                    },
                                }
                            }
                        },
                    },
                }
            }
        },
    }
}

/// The code lengths of the literal and length symbols of a fixed block.
pub open spec fn fixed_literal_lengths() -> Seq<u8> {
    Seq::new(
        288,
        |i: int|
            if i < 144 {
                8u8
            } else if i < 256 {
                9u8
            } else if i < 280 {
                7u8
            } else {
                8u8
            },
    )
}

/// The code lengths that the distance table of a fixed block is built from:
/// 5 bits for each of the 30 distance symbols.
pub open spec fn fixed_distance_lengths() -> Seq<u8> {
    Seq::new(
        288,
        |i: int|
            if i < 30 {
                5u8
            } else {
                fixed_literal_lengths()[i]
            },
    )
}

/// The two decoding tables of a fixed block.
pub open spec fn fixed_tables() -> Option<(HuffView, HuffView)> {
    match (huffman_of(fixed_literal_lengths(), 288), huffman_of(fixed_distance_lengths(), 30)) {
        (Some(lens), Some(dists)) => Some((lens, dists)),
        _ => None,
    }
}

/// `n` zero bytes.
pub open spec fn zeros8(n: int) -> Seq<u8> {
    Seq::new(n as nat, |i: int| 0u8)
}

/// The code lengths of the code length code of a dynamic block: `n` fields
/// of 3 bits from `pos` on, of which `i` are read already, each stored where
/// [`code_length_order`] says.
pub open spec fn read_code_lengths(
    input: Seq<u8>,
    pos: int,
    n: int,
    i: int,
    lengths: Seq<u8>,
) -> Option<Seq<u8>>
    decreases n - i,
{
    if i >= n {
        Some(lengths)
    } else if i < 0 || i >= 19 {
        None
    } else {
        match bits_at(input, pos + 3 * i, 3) {
            None => None,
            Some(v) => read_code_lengths(
                input,
                pos,
                n,
                i + 1,
                lengths.update(code_length_order()[i] as int, (v & 0xFF) as u8),
            ),
        }
    }
}

/// `lengths` with `rep` in the `run` places from `count` on.
pub open spec fn filled(lengths: Seq<u8>, count: int, run: int, rep: u8) -> Seq<u8> {
    Seq::new(
        lengths.len(),
        |j: int|
            if count <= j < count + run {
                rep
            } else {
                lengths[j]
            },
    )
}

/// The code lengths of a dynamic block's two codes, of which `count` are
/// read already, and where they end in the stream.
///
/// A symbol below 16 is a length. Symbol 16 repeats the length before it 3
/// to 6 times, symbol 17 repeats zero 3 to 10 times, and symbol 18 repeats
/// zero 11 to 138 times; any other symbol ends the list. `None` where the
/// stream ends early, there is nothing to repeat, or the list outgrows its
/// 320 places.
pub open spec fn read_lengths(
    input: Seq<u8>,
    pos: int,
    total: int,
    count: int,
    lengths: Seq<u8>,
    codes: HuffView,
) -> Option<(int, Seq<u8>)>
    decreases input.len() * 8 - pos,
{
    if count >= total {
        Some((pos, lengths))
    } else {
        match decode_at(input, pos, codes) {
            None => None,
            Some((symbol, at1)) => {
                if !advanced(input, pos, at1) {
                    None
                } else if symbol < 16 {
                    if count < 0 || count >= 320 {
                        None
                    } else {
                        read_lengths(
                            input,
                            at1,
                            total,
                            count + 1,
                            lengths.update(count, symbol as u8),
                            codes,
                        )
                    }
                } else if symbol < 19 {
                    if symbol == 16 && (count < 1 || count > 320) {
                        None
                    } else {
                        let rep = if symbol == 16 {
                            lengths[count - 1]
                        } else {
                            0u8
                        };
                        let nbits = if symbol == 16 {
                            2int
                        } else if symbol == 17 {
                            3int
                        } else {
                            7int
                        };
                        let base = if symbol == 18 {
                            11int
                        } else {
                            3int
                        };
                        match bits_base_at(input, at1, nbits, base) {
                            None => None,
                            Some(run) => {
                                if count < 0 || count + run > 320 || !advanced(
                                    input,
                                    pos,
                                    at1 + nbits,
                                ) {
                                    None
                                } else {
                                    read_lengths(
                                        input,
                                        at1 + nbits,
                                        total,
                                        count + run,
                                        filled(lengths, count, run, rep),
                                        codes,
                                    )
                                }
                            },
                        }
                    }
                } else {
                    Some((at1, lengths))
                }
            },
        }
    }
}

/// A dynamic block: where it ends, and the output after it.
///
/// The block opens with the number of literal and length codes less 257 in
/// 5 bits, the number of distance codes less 1 in 5 bits, and the number of
/// code length codes less 4 in 4 bits. The code length code follows, then
/// the lengths of the two codes in that code, then the data.
pub open spec fn dynamic_block(input: Seq<u8>, pos: int, out: Seq<u8>) -> Option<(int, Seq<u8>)> {
    match (
        bits_base_at(input, pos, 5, 257),
        bits_base_at(input, pos + 5, 5, 1),
        bits_base_at(input, pos + 10, 4, 4),
    ) {
        (Some(literals), Some(distances), Some(clengths)) => {
            match read_code_lengths(input, pos + 14, clengths, 0, zeros8(320)) {
                None => None,
                Some(first) => match huffman_of(first, 19) {
                    None => None,
                    Some(codes) => match read_lengths(
                        input,
                        pos + 14 + 3 * clengths,
                        literals + distances,
                        0,
                        first,
                        codes,
                    ) {
                        None => None,
                        Some((at2, lengths)) => match (
                            huffman_of(lengths, literals),
                            huffman_of(lengths.skip(literals), distances),
                        ) {
                            (Some(lens), Some(dists)) => inflate_from(input, at2, out, lens, dists),
                            _ => None,
                        },
                    },
                },
            }
        },
        _ => None,
    }
}

/// The first byte boundary at or after `pos`.
pub open spec fn align8(pos: int) -> int {
    (pos + 7) / 8 * 8
}

/// `out` with the next `remaining` bytes of the stream, from the byte
/// boundary `pos` on, and where they end.
pub open spec fn copy_stored(input: Seq<u8>, pos: int, remaining: int, out: Seq<u8>) -> Option<
    (int, Seq<u8>),
>
    decreases remaining,
{
    if remaining <= 0 {
        Some((pos, out))
    } else {
        match bits_at(input, pos, 8) {
            None => None,
            Some(v) => copy_stored(input, pos + 8, remaining - 1, out.push((v & 0xFF) as u8)),
        }
    }
}

/// A stored block: where it ends, and the output after it.
///
/// The block starts at the next byte boundary with its length in 16 bits
/// and the complement of the length in 16 bits; that many bytes follow as
/// they are.
pub open spec fn stored_block(input: Seq<u8>, pos: int, out: Seq<u8>) -> Option<(int, Seq<u8>)> {
    let start = align8(pos);
    match (bits_at(input, start, 16), bits_at(input, start + 16, 16)) {
        (Some(len), Some(nlen)) => if nlen != len ^ 0xFFFF {
            None
        } else {
            copy_stored(input, start + 32, len as int, out)
        },
        _ => None,
    }
}

/// The output of the DEFLATE blocks from `pos` on, after `out`.
///
/// A block opens with a bit that marks the last block and two bits that
/// give its kind: 0 stored, 1 compressed with the fixed codes, 2 compressed
/// with codes of its own.
pub open spec fn blocks_from(input: Seq<u8>, pos: int, out: Seq<u8>) -> Option<Seq<u8>>
    decreases input.len() * 8 - pos,
{
    match (bit_at(input, pos), bits_at(input, pos + 1, 2)) {
        (Some(is_final), Some(kind)) => {
            let block = if kind == 0 {
                stored_block(input, pos + 3, out)
            } else if kind == 1 {
                match fixed_tables() {
                    Some((lens, dists)) => inflate_from(input, pos + 3, out, lens, dists),
                    None => None,
                }
            } else if kind == 2 {
                dynamic_block(input, pos + 3, out)
            } else {
                None
            };
            match block {
                None => None,
                Some((next, more)) => if is_final {
                    Some(more)
                } else if !advanced(input, pos, next) {
                    None
                } else {
                    blocks_from(input, next, more)
                },
            }
        },
        _ => None,
    }
}

/// What the DEFLATE stream `input` decompresses to.
pub open spec fn inflated(input: Seq<u8>) -> Option<Seq<u8>> {
    blocks_from(input, 0, Seq::empty())
}

/// The 32-bit big-endian integer stored in `s` at `at`.
pub open spec fn be_u32(s: Seq<u8>, at: int) -> int {
    s[at] * 0x100_0000 + s[at + 1] * 0x1_0000 + s[at + 2] * 0x100 + s[at + 3]
}

/// What the zlib stream `bytes` decompresses to.
///
/// The first byte names the method, which has to be DEFLATE (8), and the
/// window size, which has to be at most 32 KiB (7). The first two bytes,
/// read as a big-endian number, have to be a multiple of 31. Bit 5 of the
/// second byte asks for a preset dictionary, which is not supported. The
/// DEFLATE data runs from byte 2 to the last four bytes, which hold the
/// Adler-32 checksum of the decompressed bytes, big-endian.
pub open spec fn zlib_decode(bytes: Seq<u8>) -> Result<Seq<u8>, CompressionErrors> {
    if bytes.len() < 2 {
        Err(CompressionErrors::NotDeflate)
    } else if bytes[0] & 0x0F != 0x08 {
        Err(CompressionErrors::NotDeflate)
    } else if (bytes[0] >> 4) & 0x0F > 0x07 {
        Err(CompressionErrors::UnsupportedWindowSize)
    } else if (bytes[0] * 256 + bytes[1]) % 31 != 0 {
        Err(CompressionErrors::FCheckFailed)
    } else if (bytes[1] >> 5) & 0x01 != 0 {
        Err(CompressionErrors::UnsupportedDictionary)
    } else if bytes.len() < 6 {
        Err(CompressionErrors::FailedCompression)
    } else {
        match inflated(bytes.subrange(2, bytes.len() - 4)) {
            None => Err(CompressionErrors::FailedCompression),
            Some(data) => if spec_adler32(data) != be_u32(bytes, bytes.len() - 4) {
                Err(CompressionErrors::FailedChecksum)
            } else {
                Ok(data)
            },
        }
    }
}

/// `n` zero bytes.
fn zero_vec8(n: usize) -> (v: Vec<u8>)
    ensures
        v@ == zeros8(n as int),
{
    let mut v: Vec<u8> = Vec::new();
    let mut i: usize = 0;
    while i < n
        invariant
            i <= n,
            v@ == zeros8(i as int),
        decreases n - i,
    {
        v.push(0);
        assert(v@ =~= zeros8(i + 1));
        i += 1;
    }
    v
}

/// Builds the two decoding tables of a fixed block; see [`fixed_tables`].
pub fn build_fixed() -> (r: Result<(Huff, Huff), CompressionErrors>)
    ensures
        match r {
            Ok((lens, dists)) => fixed_tables() == Some((lens@, dists@)) && lens@.wf()
                && dists@.wf(),
            Err(e) => e == CompressionErrors::FailedCompression && fixed_tables() is None,
        },
{
    let mut lengths: Vec<u8> = Vec::new();
    let mut i: usize = 0;
    while i < 288
        invariant
            i <= 288,
            lengths.len() == i,
            forall|k: int| 0 <= k < i ==> lengths[k] == fixed_literal_lengths()[k],
        decreases 288 - i,
    {
        let length: u8 = if i < 144 {
            8
        } else if i < 256 {
            9
        } else if i < 280 {
            7
        } else {
            8
        };
        lengths.push(length);
        i += 1;
    }
    assert(lengths@ =~= fixed_literal_lengths());
    let out_length = build_huffman(lengths.as_slice(), 288)?;

    let mut i: usize = 0;
    while i < 30
        invariant
            i <= 30,
            lengths.len() == 288,
            forall|k: int| 0 <= k < i ==> lengths[k] == 5,
            forall|k: int| i <= k < 288 ==> lengths[k] == fixed_literal_lengths()[k],
        decreases 30 - i,
    {
        lengths.set(i, 5);
        i += 1;
    }
    assert(lengths@ =~= fixed_distance_lengths());
    let out_dist = build_huffman(lengths.as_slice(), 30)?;

    Ok((out_length, out_dist))
}

/// A DEFLATE decoder at work: the stream, how far it has been read, and the
/// output so far.
pub struct InflateContext {
    pub input_buf: Vec<u8>,
    /// The byte that the next bit lies in.
    pub byte_index: usize,
    /// The place of the next bit in its byte; 8 where the byte is used up.
    pub bit_index: u8,
    pub output_buf: Vec<u8>,
}

impl InflateContext {
    /// The position of the next bit in the stream.
    pub open spec fn pos(&self) -> int {
        self.byte_index * 8 + self.bit_index
    }

    /// The decoder stands inside its stream or at its end.
    pub open spec fn wf(&self) -> bool {
        &&& self.bit_index <= 8
        &&& self.byte_index <= self.input_buf.len()
        &&& self.byte_index == self.input_buf.len() ==> self.bit_index == 0
    }

    /// A decoder at the start of the stream `bytes`, with no output yet.
    pub fn new(bytes: &[u8]) -> (r: Self)
        ensures
            r.wf(),
            r.input_buf@ == bytes@,
            r.pos() == 0,
            r.output_buf@ == Seq::<u8>::empty(),
    {
        let mut input_buf: Vec<u8> = Vec::new();
        input_buf.extend_from_slice(bytes);
        assert(input_buf@ =~= bytes@);
        Self { input_buf, byte_index: 0, bit_index: 0, output_buf: Vec::new() }
    }

    /// The position of the next bit in the stream.
    fn position(&self) -> (p: u128)
        requires
            self.wf(),
        ensures
            p == self.pos(),
            p <= self.input_buf.len() * 8,
    {
        self.byte_index as u128 * 8 + self.bit_index as u128
    }

    /// Reads the next bit of the stream; see [`bit_at`].
    pub fn get_bit(&mut self) -> (r: Result<bool, CompressionErrors>)
        requires
            old(self).wf(),
        ensures
            final(self).wf(),
            final(self).input_buf@ == old(self).input_buf@,
            final(self).output_buf@ == old(self).output_buf@,
            match bit_at(old(self).input_buf@, old(self).pos()) {
                Some(bit) => r == Ok::<bool, CompressionErrors>(bit) && final(self).pos() == old(
                    self,
                ).pos() + 1,
                None => r == Err::<bool, CompressionErrors>(CompressionErrors::FailedCompression)
                    && final(self).pos() == old(self).pos(),
            },
    {
        if self.bit_index == 8 {
            self.byte_index += 1;
            self.bit_index = 0;
        }
        if self.byte_index >= self.input_buf.len() {
            return Err(CompressionErrors::FailedCompression);
        }
        let bit = bit_of(self.input_buf[self.byte_index], self.bit_index);
        self.bit_index += 1;

        Ok(bit)
    }

    /// Reads a field of `num_bits` bits; see [`bits_at`].
    pub fn get_bits(&mut self, num_bits: usize) -> (r: Result<u32, CompressionErrors>)
        requires
            old(self).wf(),
        ensures
            final(self).wf(),
            final(self).input_buf@ == old(self).input_buf@,
            final(self).output_buf@ == old(self).output_buf@,
            match bits_at(old(self).input_buf@, old(self).pos(), num_bits as int) {
                Some(v) => r == Ok::<u32, CompressionErrors>(v) && final(self).pos() == old(
                    self,
                ).pos() + num_bits,
                None => r == Err::<u32, CompressionErrors>(CompressionErrors::FailedCompression),
            },
    {
        if num_bits > 32 {
            return Err(CompressionErrors::FailedCompression);
        }
        let mut byte: u32 = 0;
        let mut bit: usize = 0;
        while bit < num_bits
            invariant
                bit <= num_bits <= 32,
                self.wf(),
                self.input_buf@ == old(self).input_buf@,
                self.output_buf@ == old(self).output_buf@,
                self.pos() == old(self).pos() + bit,
                bits_at(old(self).input_buf@, old(self).pos(), num_bits as int) == bits_from(
                    old(self).input_buf@,
                    old(self).pos(),
                    num_bits as int,
                    bit as int,
                    byte,
                ),
            decreases num_bits - bit,
        {
            let value = self.get_bit()?;
            byte = with_bit(byte, value, bit as u32);
            bit += 1;
        }
        Ok(byte)
    }

    /// Reads a field of `num` bits and adds it to `base`; see
    /// [`bits_base_at`].
    pub fn get_bits_base(&mut self, num: usize, base: u64) -> (r: Result<u64, CompressionErrors>)
        requires
            old(self).wf(),
            base <= 0xFFFF_FFFF,
        ensures
            final(self).wf(),
            final(self).input_buf@ == old(self).input_buf@,
            final(self).output_buf@ == old(self).output_buf@,
            match bits_base_at(old(self).input_buf@, old(self).pos(), num as int, base as int) {
                Some(v) => r == Ok::<u64, CompressionErrors>(v as u64) && final(self).pos() == old(
                    self,
                ).pos() + num,
                None => r == Err::<u64, CompressionErrors>(CompressionErrors::FailedCompression),
            },
    {
        let bits = self.get_bits(num)?;
        Ok(base + bits as u64)
    }

    /// Decodes the next symbol with the table `huff`; see [`decode_at`].
    pub fn decode(&mut self, huff: &Huff) -> (r: Result<u16, CompressionErrors>)
        requires
            old(self).wf(),
            huff@.wf(),
        ensures
            final(self).wf(),
            final(self).input_buf@ == old(self).input_buf@,
            final(self).output_buf@ == old(self).output_buf@,
            match decode_at(old(self).input_buf@, old(self).pos(), huff@) {
                Some((symbol, next)) => r == Ok::<u16, CompressionErrors>(symbol) && final(self).pos() == next,
                None => r == Err::<u16, CompressionErrors>(CompressionErrors::FailedCompression),
            },
    {
        let mut base: u32 = 0;
        let mut offs: u32 = 0;
        let mut i: usize = 1;
        proof {
            lemma2_to64();
        }
        while i <= 15
            invariant
                1 <= i <= 16,
                huff@.wf(),
                self.wf(),
                self.input_buf@ == old(self).input_buf@,
                self.output_buf@ == old(self).output_buf@,
                offs < pow2((i - 1) as nat),
                pow2((i - 1) as nat) <= 0x8000,
                base <= (i - 1) * 0x1_0000,
                decode_at(old(self).input_buf@, old(self).pos(), huff@) == decode_from(
                    old(self).input_buf@,
                    self.pos(),
                    huff@,
                    i as int,
                    base as int,
                    offs as int,
                ),
            decreases 16 - i,
        {
            let bit = self.get_bit()?;
            offs = 2 * offs + if bit {
                1
            } else {
                0
            };
            let count = huff.counts[i] as u32;
            if offs < count {
                if base + offs >= 288 {
                    return Err(CompressionErrors::FailedCompression);
                }
                return Ok(huff.symbols[(base + offs) as usize]);
            }
            base += count;
            offs -= count;
            proof {
                lemma2_to64();
                lemma_pow2_unfold(i as nat);
                if i < 15 {
                    lemma_pow2_strictly_increases(i as nat, 15);
                }
            }
            i += 1;
        }
        Err(CompressionErrors::FailedCompression)
    }

    /// Adds `byte` to the output.
    pub fn emit(&mut self, byte: u8)
        ensures
            final(self).output_buf@ == old(self).output_buf@.push(byte),
            final(self).input_buf == old(self).input_buf,
            final(self).byte_index == old(self).byte_index,
            final(self).bit_index == old(self).bit_index,
    {
        self.output_buf.push(byte);
    }

    /// The byte that lies `offset` bytes back in the output; see
    /// [`back_byte`].
    pub fn peek(&self, offset: u64) -> (r: u8)
        ensures
            r == back_byte(self.output_buf@, offset as int),
    {
        let len = self.output_buf.len();
        if offset >= 1 && offset <= len as u64 {
            self.output_buf[len - offset as usize]
        } else {
            0
        }
    }

    /// Decodes a stored block; see [`stored_block`].
    #[verifier::loop_isolation(false)]
    pub fn uncompressed(&mut self) -> (r: Result<(), CompressionErrors>)
        requires
            old(self).wf(),
        ensures
            final(self).wf(),
            final(self).input_buf@ == old(self).input_buf@,
            match stored_block(old(self).input_buf@, old(self).pos(), old(self).output_buf@) {
                Some((next, out)) => r is Ok && final(self).pos() == next && final(self).output_buf@ == out,
                None => r == Err::<(), CompressionErrors>(CompressionErrors::FailedCompression),
            },
    {
        if self.bit_index != 0 {
            self.byte_index += 1;
            self.bit_index = 0;
        }
        assert(self.pos() == align8(old(self).pos()));
        let len = self.get_bits(16)?;
        let nlen = self.get_bits(16)?;

        if nlen != len ^ 0xFFFF {
            return Err(CompressionErrors::FailedCompression);
        }
        let ghost start = self.pos();
        let ghost before = self.output_buf@;
        let mut remaining: u32 = len;
        while remaining > 0
            invariant
                self.wf(),
                self.input_buf@ == old(self).input_buf@,
                copy_stored(old(self).input_buf@, start, len as int, before) == copy_stored(
                    old(self).input_buf@,
                    self.pos(),
                    remaining as int,
                    self.output_buf@,
                ),
            decreases remaining,
        {
            let v = self.get_bits(8)?;
            assert(v & 0xFF < 0x100) by (bit_vector);
            let byte = (v & 0xFF) as u8;
            self.emit(byte);
            remaining -= 1;
        }

        Ok(())
    }

    /// Decodes the rest of a compressed block with the tables `huff_len` and
    /// `huff_dist`; see [`inflate_from`].
    pub fn inflate(&mut self, huff_len: &Huff, huff_dist: &Huff) -> (r: Result<
        (),
        CompressionErrors,
    >)
        requires
            old(self).wf(),
            huff_len@.wf(),
            huff_dist@.wf(),
        ensures
            final(self).wf(),
            final(self).input_buf@ == old(self).input_buf@,
            match inflate_from(
                old(self).input_buf@,
                old(self).pos(),
                old(self).output_buf@,
                huff_len@,
                huff_dist@,
            ) {
                Some((next, out)) => r is Ok && final(self).pos() == next && final(self).output_buf@ == out,
                None => r == Err::<(), CompressionErrors>(CompressionErrors::FailedCompression),
            },
    {
        loop
            invariant
                self.wf(),
                huff_len@.wf(),
                huff_dist@.wf(),
                self.input_buf@ == old(self).input_buf@,
                inflate_from(
                    old(self).input_buf@,
                    old(self).pos(),
                    old(self).output_buf@,
                    huff_len@,
                    huff_dist@,
                ) == inflate_from(
                    old(self).input_buf@,
                    self.pos(),
                    self.output_buf@,
                    huff_len@,
                    huff_dist@,
                ),
            decreases self.input_buf.len() * 8 - self.pos(),
        {
            let start = self.position();
            let symbol = self.decode(huff_len)?;
            if self.position() <= start {
                return Err(CompressionErrors::FailedCompression);
            }
            if symbol < 256 {
                self.emit(symbol as u8);
            } else {
                if symbol == 256 {
                    return Ok(());
                }
                if symbol > 285 {
                    return Err(CompressionErrors::FailedCompression);
                }
                let (length_bits, length_base) = length_code((symbol - 257) as usize);
                let length = self.get_bits_base(length_bits, length_base)?;
                let distance = self.decode(huff_dist)?;
                if distance >= 30 {
                    return Err(CompressionErrors::FailedCompression);
                }
                let (dist_bits, dist_base) = dist_code(distance as usize);
                let offset = self.get_bits_base(dist_bits, dist_base)?;
                if self.position() <= start {
                    return Err(CompressionErrors::FailedCompression);
                }
                let ghost before = self.output_buf@;
                let ghost here = self.pos();
                let mut k: u64 = 0;
                while k < length
                    invariant
                        k <= length,
                        self.wf(),
                        self.input_buf@ == old(self).input_buf@,
                        self.pos() == here,
                        copy_run(before, length as int, offset as int, 0) == copy_run(
                            self.output_buf@,
                            length as int,
                            offset as int,
                            k as int,
                        ),
                    decreases length - k,
                {
                    let b = self.peek(offset);
                    self.emit(b);
                    k += 1;
                }
            }
        }
    }

    /// Reads the code lengths of a dynamic block's code length code; see
    /// [`read_code_lengths`].
    fn read_code_lengths(&mut self, clengths: u64, lengths: &mut Vec<u8>) -> (r: Result<
        (),
        CompressionErrors,
    >)
        requires
            old(self).wf(),
            old(lengths).len() == 320,
        ensures
            final(self).wf(),
            final(self).input_buf@ == old(self).input_buf@,
            final(self).output_buf@ == old(self).output_buf@,
            final(lengths).len() == 320,
            match read_code_lengths(
                old(self).input_buf@,
                old(self).pos(),
                clengths as int,
                0,
                old(lengths)@,
            ) {
                Some(read) => r is Ok && final(lengths)@ == read && final(self).pos() == old(
                    self,
                ).pos() + 3 * clengths,
                None => r == Err::<(), CompressionErrors>(CompressionErrors::FailedCompression),
            },
    {
        let mut i: u64 = 0;
        while i < clengths
            invariant
                i <= clengths,
                i <= 19,
                self.wf(),
                self.input_buf@ == old(self).input_buf@,
                self.output_buf@ == old(self).output_buf@,
                lengths.len() == 320,
                self.pos() == old(self).pos() + 3 * i,
                read_code_lengths(
                    old(self).input_buf@,
                    old(self).pos(),
                    clengths as int,
                    0,
                    old(lengths)@,
                ) == read_code_lengths(
                    old(self).input_buf@,
                    old(self).pos(),
                    clengths as int,
                    i as int,
                    lengths@,
                ),
            decreases clengths - i,
        {
            if i >= 19 {
                return Err(CompressionErrors::FailedCompression);
            }
            let v = self.get_bits(3)?;
            assert(v & 0xFF < 0x100) by (bit_vector);
            lengths.set(code_length_slot(i as usize), (v & 0xFF) as u8);
            i += 1;
        }
        Ok(())
    }

    /// Reads the code lengths of a dynamic block's two codes; see
    /// [`read_lengths`].
    fn read_lengths(&mut self, total: u64, lengths: &mut Vec<u8>, codes: &Huff) -> (r: Result<
        (),
        CompressionErrors,
    >)
        requires
            old(self).wf(),
            old(lengths).len() == 320,
            codes@.wf(),
        ensures
            final(self).wf(),
            final(self).input_buf@ == old(self).input_buf@,
            final(self).output_buf@ == old(self).output_buf@,
            final(lengths).len() == 320,
            match read_lengths(
                old(self).input_buf@,
                old(self).pos(),
                total as int,
                0,
                old(lengths)@,
                codes@,
            ) {
                Some((next, read)) => r is Ok && final(lengths)@ == read && final(self).pos()
                    == next,
                None => r == Err::<(), CompressionErrors>(CompressionErrors::FailedCompression),
            },
    {
        let mut count: u64 = 0;
        while count < total
            invariant
                self.wf(),
                codes@.wf(),
                self.input_buf@ == old(self).input_buf@,
                self.output_buf@ == old(self).output_buf@,
                lengths.len() == 320,
                count <= 320,
                read_lengths(
                    old(self).input_buf@,
                    old(self).pos(),
                    total as int,
                    0,
                    old(lengths)@,
                    codes@,
                ) == read_lengths(
                    old(self).input_buf@,
                    self.pos(),
                    total as int,
                    count as int,
                    lengths@,
                    codes@,
                ),
            decreases self.input_buf.len() * 8 - self.pos(),
        {
            let start = self.position();
            let symbol = self.decode(codes)?;
            if self.position() <= start {
                return Err(CompressionErrors::FailedCompression);
            }
            if symbol < 16 {
                if count >= 320 {
                    return Err(CompressionErrors::FailedCompression);
                }
                lengths.set(count as usize, symbol as u8);
                count += 1;
            } else if symbol < 19 {
                let mut rep: u8 = 0;
                let mut length: u64;

                if symbol == 16 {
                    if count < 1 {
                        return Err(CompressionErrors::FailedCompression);
                    }
                    rep = lengths[count as usize - 1];
                    length = self.get_bits_base(2, 3)?;
                } else if symbol == 17 {
                    length = self.get_bits_base(3, 3)?;
                } else {
                    length = self.get_bits_base(7, 11)?;
                }
                if count + length > 320 {
                    return Err(CompressionErrors::FailedCompression);
                }
                let ghost before = lengths@;
                let ghost first = count;
                let ghost run = length;
                while length != 0
                    invariant
                        lengths.len() == 320,
                        count + length == first + run,
                        first + run <= 320,
                        first <= count,
                        forall|j: int|
                            0 <= j < 320 ==> lengths[j] == if first <= j < count {
                                rep
                            } else {
                                before[j]
                            },
                    decreases length,
                {
                    lengths.set(count as usize, rep);
                    count += 1;
                    length -= 1;
                }
                assert(lengths@ =~= filled(before, first as int, run as int, rep));
            } else {
                return Ok(());
            }
        }
        Ok(())
    }

    /// Decodes a dynamic block; see [`dynamic_block`].
    pub fn decode_huffman(&mut self) -> (r: Result<(), CompressionErrors>)
        requires
            old(self).wf(),
        ensures
            final(self).wf(),
            final(self).input_buf@ == old(self).input_buf@,
            match dynamic_block(old(self).input_buf@, old(self).pos(), old(self).output_buf@) {
                Some((next, out)) => r is Ok && final(self).pos() == next && final(self).output_buf@ == out,
                None => r == Err::<(), CompressionErrors>(CompressionErrors::FailedCompression),
            },
    {
        let mut lengths = zero_vec8(320);

        let literals = self.get_bits_base(5, 257)?;
        let distances = self.get_bits_base(5, 1)?;
        let clengths = self.get_bits_base(4, 4)?;

        self.read_code_lengths(clengths, &mut lengths)?;

        let codes = build_huffman(lengths.as_slice(), 19)?;

        self.read_lengths(literals + distances, &mut lengths, &codes)?;

        if literals > 288 || distances > 288 {
            return Err(CompressionErrors::FailedCompression);
        }
        let huff_len = build_huffman(lengths.as_slice(), literals as usize);
        let tail = slice_subrange(lengths.as_slice(), literals as usize, 320);
        assert(tail@ =~= lengths@.skip(literals as int));
        let huff_dist = build_huffman(tail, distances as usize);
        match (huff_len, huff_dist) {
            (Ok(huff_len), Ok(huff_dist)) => self.inflate(&huff_len, &huff_dist),
            _ => Err(CompressionErrors::FailedCompression),
        }
    }

    /// Decodes the DEFLATE blocks of the stream, up to and with the block
    /// that is marked as the last, and returns the output; see
    /// [`blocks_from`].
    pub fn decompress(&mut self) -> (r: Result<Vec<u8>, CompressionErrors>)
        requires
            old(self).wf(),
        ensures
            final(self).wf(),
            final(self).input_buf@ == old(self).input_buf@,
            match blocks_from(old(self).input_buf@, old(self).pos(), old(self).output_buf@) {
                Some(out) => r is Ok && r->Ok_0@ == out && final(self).output_buf@ == out,
                None => r is Err && r->Err_0 == CompressionErrors::FailedCompression,
            },
    {
        let fixed = build_fixed();

        loop
            invariant
                self.wf(),
                self.input_buf@ == old(self).input_buf@,
                match fixed {
                    Ok((lens, dists)) => fixed_tables() == Some((lens@, dists@)) && lens@.wf()
                        && dists@.wf(),
                    Err(_) => fixed_tables() is None,
                },
                blocks_from(old(self).input_buf@, old(self).pos(), old(self).output_buf@)
                    == blocks_from(old(self).input_buf@, self.pos(), self.output_buf@),
            decreases self.input_buf.len() * 8 - self.pos(),
        {
            let start = self.position();
            let ghost at = self.pos();
            let ghost out = self.output_buf@;
            let ghost goal = blocks_from(self.input_buf@, at, out);
            let is_final = match self.get_bit() {
                Ok(bit) => bit,
                Err(e) => {
                    return Err(e);
                },
            };
            let block_type = match self.get_bits(2) {
                Ok(bits) => bits,
                Err(e) => {
                    return Err(e);
                },
            };

            match block_type {
                0 => {
                    self.uncompressed()?;
                },
                1 => {
                    match &fixed {
                        Ok((lengths, dists)) => {
                            self.inflate(lengths, dists)?;
                        },
                        Err(_) => {
                            return Err(CompressionErrors::FailedCompression);
                        },
                    }
                },
                2 => {
                    self.decode_huffman()?;
                },
                _ => {
                    return Err(CompressionErrors::FailedCompression);
                },
            }

            if is_final {
                let mut data: Vec<u8> = Vec::new();
                data.extend_from_slice(self.output_buf.as_slice());
                assert(data@ =~= self.output_buf@);
                return Ok(data);
            }
            if self.position() <= start {
                return Err(CompressionErrors::FailedCompression);
            }
        }
    }
}

/// The bytes of a decompression's result.
pub open spec fn view_data(r: Result<Vec<u8>, CompressionErrors>) -> Result<
    Seq<u8>,
    CompressionErrors,
> {
    match r {
        Ok(data) => Ok(data@),
        Err(e) => Err(e),
    }
}

/// Decompresses the zlib stream `bytes`; see [`zlib_decode`].
// The formats are those of RFC 1950 (zlib) and RFC 1951 (DEFLATE).
pub fn uncompress_data(bytes: &[u8]) -> (r: Result<Vec<u8>, CompressionErrors>)
    ensures
        view_data(r) == zlib_decode(bytes@),
{
    if bytes.len() < 2 {
        return Err(CompressionErrors::NotDeflate);
    }
    // Compression Method and flags

    let cmf = bytes[0];

    if (cmf & 0x0F) != 0x08 {
        return Err(CompressionErrors::NotDeflate);
    }
    let window_log2 = (cmf >> 4) & 0x0F;

    if window_log2 > 0x07 {
        return Err(CompressionErrors::UnsupportedWindowSize);
    }
    let flags = bytes[1];
    if (cmf as u32 * 256 + flags as u32) % 31 != 0 {
        return Err(CompressionErrors::FCheckFailed);
    }
    let present_dictionary = (flags >> 5) & 0x01 != 0;
    let _compression_level = ZlibCompressionLevel::from_bits((flags >> 6) & 0x03);

    if present_dictionary {
        return Err(CompressionErrors::UnsupportedDictionary);
    }
    if bytes.len() < 6 {
        return Err(CompressionErrors::FailedCompression);
    }
    let end = bytes.len() - 4;
    let mut inflate_context = InflateContext::new(slice_subrange(bytes, 2, end));

    let data = match inflate_context.decompress() {
        Ok(data) => data,
        Err(_) => {
            return Err(CompressionErrors::FailedCompression);
        },
    };

    // last 4 bytes of zlib data
    let checksum: u32 = bytes[end] as u32 * 0x100_0000 + bytes[end + 1] as u32 * 0x1_0000
        + bytes[end + 2] as u32 * 0x100 + bytes[end + 3] as u32;

    if adler32(data.as_slice()) != checksum {
        return Err(CompressionErrors::FailedChecksum);
    }
    Ok(data)
}

/// The zlib decompressor, as the archive reader takes it.
#[derive(Clone, Copy, Debug)]
pub struct Gzip;

impl Decompressor for Gzip {
    /// What [`zlib_decode`] makes of `input`, where it succeeds.
    open spec fn output(&self, input: Seq<u8>) -> Option<Seq<u8>> {
        match zlib_decode(input) {
            Ok(data) => Some(data),
            Err(_) => None,
        }
    }

    fn decompress(&self, input: &[u8]) -> (r: Result<Vec<u8>, VfsError>) {
        match uncompress_data(input) {
            Ok(data) => Ok(data),
            Err(_) => Err(VfsError::DecompressFailure),
        }
    }
}

} // verus!
