//! What the virtual memory manager decides when it builds the page
//! tables.

use crate::arch::x86_64::paging::{
    PageSize, PageTableEntry, PT_FLAG_LARGE, PT_FLAG_NX, PT_FLAG_VALID, PT_FLAG_WRITE,
    PT_PADDR_MASK,
};
use vstd::prelude::*;

verus! {

pub const VMM_FLAG_WRITE: u64 = 0x2;

pub const VMM_FLAG_NOEXEC: u64 = 0x8000_0000_0000_0000;

/// The flags of the frame buffer: write-through, and the memory type that
/// combines writes.
pub const VMM_FLAG_FB: u64 = 0x1008;

/// How much memory one entry of a table of level `level + 1` covers.
pub open spec fn spec_page_sizes(level: usize) -> u64 {
    if level == 0 {
        0x1000
    } else if level == 1 {
        0x20_0000
    } else if level == 2 {
        0x4000_0000
    } else if level == 3 {
        0x80_0000_0000
    } else {
        0x1_0000_0000_0000
    }
}

/// How much memory one entry of a table of level `level + 1` covers.
pub fn page_sizes(level: usize) -> (r: u64)
    requires
        level < 5,
    ensures
        r == spec_page_sizes(level),
{
    let sizes: [u64; 5] = [0x1000, 0x20_0000, 0x4000_0000, 0x80_0000_0000, 0x1_0000_0000_0000];
    sizes[level]
}

/// What has to be done to get from an entry of a table to the table of
/// the next level.
#[derive(Clone, Copy, Debug, PartialEq, Eq, Structural)]
pub enum NextLevel {
    /// The entry points to the table at this address.
    Existing { table: u64 },
    /// The entry is empty: a new table is allocated and entered.
    Fresh,
    /// The entry maps a large page: a new table is allocated and entered,
    /// and what the large page mapped is mapped again in pages of
    /// `new_page_size` bytes, the first of them at `old_virt` to
    /// `old_phys`, with `old_flags`, until `old_page_size` bytes are
    /// mapped.
    Split { old_flags: u64, old_phys: u64, old_virt: u64, old_page_size: u64, new_page_size: u64 },
    /// The entry maps a large page where there can be none, or a large
    /// page that does not begin at a multiple of its size.
    Unexpected,
}

/// What has to be done to get from `entry`, an entry of a table of level
/// `level + 1` through which `virtual_addr` is translated, to the table of
/// level `level`, for a mapping in pages of the size `desired_size`.
///
/// A valid entry that is not marked as large points to a table, at the
/// address in its bits 12 to 47. A valid entry that is marked as large maps
/// a large page at that address, of which the flags for writing and
/// against execution are kept.
pub open spec fn spec_next_level(
    entry: u64,
    virtual_addr: usize,
    desired_size: PageSize,
    level: usize,
) -> NextLevel {
    if entry & (PT_FLAG_VALID | PT_FLAG_LARGE) == PT_FLAG_VALID {
        NextLevel::Existing { table: entry & PT_PADDR_MASK }
    } else if entry & (PT_FLAG_VALID | PT_FLAG_LARGE) == PT_FLAG_VALID | PT_FLAG_LARGE {
        let old_page_size = spec_page_sizes(level);
        let old_phys = entry & PT_PADDR_MASK;
        if level > 3 || level == 0 || old_phys & ((old_page_size - 1) as u64) != 0 {
            NextLevel::Unexpected
        } else {
            NextLevel::Split {
                old_flags: entry & (PT_FLAG_WRITE | PT_FLAG_NX),
                old_phys,
                old_virt: (virtual_addr as u64) & !((old_page_size - 1) as u64),
                old_page_size,
                new_page_size: desired_size.spec_bytes(),
            }
        }
    } else {
        NextLevel::Fresh
    }
}

/// Decides how to get to the table of the next level; see
/// [`spec_next_level`].
pub fn get_next_level(
    entry: &PageTableEntry,
    virtual_addr: usize,
    desired_size: PageSize,
    level: usize,
) -> (r: NextLevel)
    ensures
        r == spec_next_level(entry@, virtual_addr, desired_size, level),
{
    if entry.is_table() {
        NextLevel::Existing { table: entry.addr() }
    } else if entry.is_large() {
        // We are replacing an existing large page with a smaller page
        if level > 3 || level == 0 {
            return NextLevel::Unexpected;
        }
        let old_page_size = page_sizes(level);
        let new_page_size = desired_size.bytes();

        let old_flags = entry.vmm_flags();
        let old_phys = entry.addr();
        let old_virt = virtual_addr as u64 & !(old_page_size - 1);

        if old_phys & (old_page_size - 1) != 0 {
            return NextLevel::Unexpected;
        }
        NextLevel::Split { old_flags, old_phys, old_virt, old_page_size, new_page_size }
    } else {
        NextLevel::Fresh
    }
}

/// The window of 1 GiB pages that maps the memory region of `length` bytes
/// at `base`, as far as it lies above the first 4 GiB: where the window
/// begins, and how long it is. `None` where nothing of the region lies
/// above the first 4 GiB, or the window has no end in the address space.
pub open spec fn spec_high_window(base: u64, length: u64) -> Option<(u64, u64)> {
    let top = base + length;
    let from = if base < 0x1_0000_0000 {
        0x1_0000_0000
    } else {
        base as int
    };
    if from >= top || top + 0x3FFF_FFFF > u64::MAX {
        None
    } else {
        let aligned_base = (from as u64) & !0x3FFF_FFFFu64;
        let aligned_top = ((top + 0x3FFF_FFFF) as u64) & !0x3FFF_FFFFu64;
        Some((aligned_base, (aligned_top - aligned_base) as u64))
    }
}

/// The window of 1 GiB pages for a memory region; see
/// [`spec_high_window`].
pub fn high_window(base: u64, length: u64) -> (r: Option<(u64, u64)>)
    ensures
        r == spec_high_window(base, length),
{
    let top = base as u128 + length as u128;
    let from: u64 = if base < 0x1_0000_0000 {
        0x1_0000_0000
    } else {
        base
    };
    if from as u128 >= top || top + 0x3FFF_FFFF > u64::MAX as u128 {
        return None;
    }
    let top = top as u64;
    let aligned_base = from & !0x3FFF_FFFFu64;
    let aligned_top = (top + 0x3FFF_FFFF) & !0x3FFF_FFFFu64;
    assert(aligned_base <= aligned_top) by (bit_vector)
        requires
            from < top,
            top <= 0xFFFF_FFFF_C000_0000,
            aligned_base == from & !0x3FFF_FFFFu64,
            aligned_top == ((top + 0x3FFF_FFFF) as u64) & !0x3FFF_FFFFu64,
    ;
    Some((aligned_base, aligned_top - aligned_base))
}

} // verus!
