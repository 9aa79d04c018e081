//! Little-endian integers inside byte strings.

use vstd::prelude::*;

verus! {

/// The 16-bit little-endian integer stored in `s` at `at`.
pub open spec fn le_u16(s: Seq<u8>, at: int) -> u16 {
    (s[at] as int + 0x100 * (s[at + 1] as int)) as u16
}

/// The 32-bit little-endian integer stored in `s` at `at`.
pub open spec fn le_u32(s: Seq<u8>, at: int) -> u32 {
    (le_u16(s, at) as int + 0x1_0000 * (le_u16(s, at + 2) as int)) as u32
}

/// The 64-bit little-endian integer stored in `s` at `at`.
pub open spec fn le_u64(s: Seq<u8>, at: int) -> u64 {
    (le_u32(s, at) as int + 0x1_0000_0000 * (le_u32(s, at + 4) as int)) as u64
}

/// Reads a 16-bit little-endian integer.
pub fn read_le_u16(bytes: &[u8], at: usize) -> (v: u16)
    requires
        at + 2 <= bytes.len(),
    ensures
        v == le_u16(bytes@, at as int),
{
    let lo: u16 = bytes[at] as u16;
    let hi: u16 = bytes[at + 1] as u16;
    lo + 0x100 * hi
}

/// Reads a 32-bit little-endian integer.
pub fn read_le_u32(bytes: &[u8], at: usize) -> (v: u32)
    requires
        at + 4 <= bytes.len(),
    ensures
        v == le_u32(bytes@, at as int),
{
    let lo: u32 = read_le_u16(bytes, at) as u32;
    let hi: u32 = read_le_u16(bytes, at + 2) as u32;
    lo + 0x1_0000 * hi
}

/// Reads a 64-bit little-endian integer.
pub fn read_le_u64(bytes: &[u8], at: usize) -> (v: u64)
    requires
        at + 8 <= bytes.len(),
    ensures
        v == le_u64(bytes@, at as int),
{
    let lo: u64 = read_le_u32(bytes, at) as u64;
    let hi: u64 = read_le_u32(bytes, at + 4) as u64;
    lo + 0x1_0000_0000 * hi
}

} // verus!
