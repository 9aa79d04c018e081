//! Entries of the x86-64 page tables.

use vstd::prelude::*;

verus! {

pub const PT_FLAG_VALID: u64 = 0x1;

pub const PT_FLAG_WRITE: u64 = 0x2;

pub const PT_FLAG_USER: u64 = 0x4;

pub const PT_FLAG_LARGE: u64 = 0x80;

pub const PT_FLAG_NX: u64 = 0x8000_0000_0000_0000;

pub const PT_PADDR_MASK: u64 = 0x0000_FFFF_FFFF_F000;

/// The flags of an entry that points to a table of the next level.
pub const PT_TABLE_FLAGS: u64 = 0x7;

/// The fields of a page table entry.
#[derive(Debug, Clone, Copy, PartialEq, Eq, Structural)]
pub enum Field {
    Present,
    ReadWrite,
    UserSupervisor,
    WriteThrough,
    CacheDisable,
    Accessed,
    Avl0,
    PageSize,
    Avl1,
    Addr,
    Nx,
}

impl Field {
    /// The bit at which the field starts.
    pub open spec fn shift(self) -> u64 {
        match self {
            Field::Present => 0,
            Field::ReadWrite => 1,
            Field::UserSupervisor => 2,
            Field::WriteThrough => 3,
            Field::CacheDisable => 4,
            Field::Accessed => 5,
            Field::Avl0 => 6,
            Field::PageSize => 7,
            Field::Avl1 => 8,
            Field::Addr => 12,
            Field::Nx => 63,
        }
    }

    /// The largest value that the field holds: all its bits set.
    pub open spec fn max(self) -> u64 {
        match self {
            Field::Avl1 => 0xF,
            Field::Addr => 0x000F_FFFF_FFFF_FFFF,
            _ => 1,
        }
    }

    /// The bits of an entry that the field takes.
    pub open spec fn mask(self) -> u64 {
        self.max() << self.shift()
    }
}

/// A page table entry.
#[derive(Clone, Copy, Debug)]
pub struct PageTableEntry(u64);

impl View for PageTableEntry {
    type V = u64;

    /// The entry as the processor reads it.
    closed spec fn view(&self) -> u64 {
        self.0
    }
}

/// The value of `field` in the entry `entry`.
pub open spec fn field_of(entry: u64, field: Field) -> u64 {
    (entry >> field.shift()) & field.max()
}

/// The entry `entry` with `value` in `field`. Bits of `value` that do not
/// fit in the field are dropped.
pub open spec fn with_field(entry: u64, field: Field, value: u64) -> u64 {
    (entry & !field.mask()) | ((value << field.shift()) & field.mask())
}

/// A field that was set holds what was put in it, as far as that fits.
pub proof fn lemma_set_then_get(entry: u64, field: Field, value: u64)
    ensures
        field_of(with_field(entry, field, value), field) == value & field.max(),
{
    let shift = field.shift();
    let max = field.max();
    assert((1u64 << shift) >> shift == 1) by (bit_vector)
        requires
            shift < 64,
    ;
    assert((0xFu64 << 8) >> 8 == 0xF) by (bit_vector);
    assert((0x000F_FFFF_FFFF_FFFFu64 << 12) >> 12 == 0x000F_FFFF_FFFF_FFFF) by (bit_vector);
    assert((((entry & !(max << shift)) | ((value << shift) & (max << shift))) >> shift) & max
        == value & max) by (bit_vector)
        requires
            shift < 64,
            (max << shift) >> shift == max,
    ;
}

impl PageTableEntry {
    /// An entry for the frame or table at `addr`, with the flags `flags`.
    pub fn new(addr: u64, flags: u64) -> (r: Self)
        ensures
            r@ == addr | flags,
    {
        Self(addr | flags)
    }

    /// The physical address that the entry points to: bits 12 to 47.
    pub fn addr(&self) -> (r: u64)
        ensures
            r == self@ & PT_PADDR_MASK,
    {
        self.0 & PT_PADDR_MASK
    }

    /// The value of `field`.
    pub fn get_field(&self, field: Field) -> (r: u64)
        ensures
            r == field_of(self@, field),
    {
        match field {
            Field::Present => (self.0 >> 0) & 1,
            Field::ReadWrite => (self.0 >> 1) & 1,
            Field::UserSupervisor => (self.0 >> 2) & 1,
            Field::WriteThrough => (self.0 >> 3) & 1,
            Field::CacheDisable => (self.0 >> 4) & 1,
            Field::Accessed => (self.0 >> 5) & 1,
            Field::Avl0 => (self.0 >> 6) & 1,
            Field::PageSize => (self.0 >> 7) & 1,
            Field::Avl1 => (self.0 >> 8) & 0xF,
            Field::Addr => (self.0 >> 12) & 0x000F_FFFF_FFFF_FFFF,
            Field::Nx => (self.0 >> 63) & 1,
        }
    }

    /// Puts `value` in `field` and leaves the other fields as they are.
    pub fn set_field(&mut self, field: Field, value: u64)
        ensures
            final(self)@ == with_field(old(self)@, field, value),
            field_of(final(self)@, field) == value & field.max(),
    {
        let max: u64 = match field {
            Field::Avl1 => 0xF,
            Field::Addr => 0x000F_FFFF_FFFF_FFFF,
            _ => 1,
        };
        let shift: u64 = match field {
            Field::Present => 0,
            Field::ReadWrite => 1,
            Field::UserSupervisor => 2,
            Field::WriteThrough => 3,
            Field::CacheDisable => 4,
            Field::Accessed => 5,
            Field::Avl0 => 6,
            Field::PageSize => 7,
            Field::Avl1 => 8,
            Field::Addr => 12,
            Field::Nx => 63,
        };
        let mask = max << shift;

        proof {
            lemma_set_then_get(self.0, field, value);
        }
        self.0 = (self.0 & !mask) | ((value << shift) & mask);
    }

    /// Whether the entry is valid and points to a table of the next level.
    pub fn is_table(&self) -> (r: bool)
        ensures
            r == (self@ & (PT_FLAG_VALID | PT_FLAG_LARGE) == PT_FLAG_VALID),
    {
        (self.0 & (PT_FLAG_VALID | PT_FLAG_LARGE)) == PT_FLAG_VALID
    }

    /// Whether the entry is valid and maps a large page.
    pub fn is_large(&self) -> (r: bool)
        ensures
            r == (self@ & (PT_FLAG_VALID | PT_FLAG_LARGE) == PT_FLAG_VALID | PT_FLAG_LARGE),
    {
        (self.0 & (PT_FLAG_VALID | PT_FLAG_LARGE)) == (PT_FLAG_VALID | PT_FLAG_LARGE)
    }

    /// The flags of the entry that the memory manager keeps track of:
    /// writable and not executable.
    pub fn vmm_flags(&self) -> (r: u64)
        ensures
            r == self@ & (PT_FLAG_WRITE | PT_FLAG_NX),
    {
        self.0 & (PT_FLAG_WRITE | PT_FLAG_NX)
    }
}

/// The size of the page that a mapping uses.
#[derive(Clone, Copy, Debug, PartialEq, Eq, Structural)]
pub enum PageSize {
    Size4KiB,
    Size2MiB,
    Size1GiB,
}

/// One table of the page table tree: 512 entries.
pub struct PageDirectory {
    pub entries: [PageTableEntry; 512],
}

impl PageSize {
    /// The size of the page in bytes.
    pub open spec fn spec_bytes(self) -> u64 {
        match self {
            PageSize::Size4KiB => 0x1000,
            PageSize::Size2MiB => 0x20_0000,
            PageSize::Size1GiB => 0x4000_0000,
        }
    }

    /// The size of the page in bytes.
    pub fn bytes(self) -> (r: u64)
        ensures
            r == self.spec_bytes(),
    {
        match self {
            PageSize::Size4KiB => 0x1000,
            PageSize::Size2MiB => 0x20_0000,
            PageSize::Size1GiB => 0x4000_0000,
        }
    }
}

/// The place in the table of level `level` of the entry through which the
/// address `virtual_addr` is translated: nine bits of the address for each
/// level, above the twelve bits that count inside a page. Level 1 is the
/// table whose entries are pages of 4 KiB.
pub open spec fn spec_table_index(virtual_addr: usize, level: usize) -> usize {
    let address = virtual_addr as u64;
    (if level == 1 {
        (address >> 12) & 0x1ff
    } else if level == 2 {
        (address >> 21) & 0x1ff
    } else if level == 3 {
        (address >> 30) & 0x1ff
    } else if level == 4 {
        (address >> 39) & 0x1ff
    } else {
        (address >> 48) & 0x1ff
    }) as usize
}

/// The place of the entry for `virtual_addr` in the table of level
/// `level`; see [`spec_table_index`].
pub fn table_index(virtual_addr: usize, level: usize) -> (r: usize)
    requires
        1 <= level <= 5,
    ensures
        r == spec_table_index(virtual_addr, level),
        r < 512,
{
    let address = virtual_addr as u64;
    let index = if level == 1 {
        (address >> 12) & 0x1ff
    } else if level == 2 {
        (address >> 21) & 0x1ff
    } else if level == 3 {
        (address >> 30) & 0x1ff
    } else if level == 4 {
        (address >> 39) & 0x1ff
    } else {
        (address >> 48) & 0x1ff
    };
    assert(index < 512) by (bit_vector)
        requires
            index == (address >> 12) & 0x1ff || index == (address >> 21) & 0x1ff || index == (
            address >> 30) & 0x1ff || index == (address >> 39) & 0x1ff || index == (address >> 48)
                & 0x1ff,
    ;
    index as usize
}

/// The entry that maps a page of the size `page_size` to the frame at
/// `physical_addr` with the flags `flags`.
///
/// The entry is valid. A page of 2 MiB or of 1 GiB is marked as large. For
/// a page of 4 KiB, bit 12 of the flags, which selects the memory type of
/// a large page, moves to bit 7, where a small page has it.
pub open spec fn spec_leaf_entry(physical_addr: usize, flags: u64, page_size: PageSize) -> u64 {
    let flags = flags | PT_FLAG_VALID;
    match page_size {
        PageSize::Size4KiB => if flags & 0x1000 != 0 {
            (physical_addr as u64) | ((flags & !0x1000u64) | 0x80)
        } else {
            (physical_addr as u64) | flags
        },
        _ => (physical_addr as u64) | flags | PT_FLAG_LARGE,
    }
}

/// The entry that maps a page; see [`spec_leaf_entry`].
pub fn leaf_entry(physical_addr: usize, flags: u64, page_size: PageSize) -> (r: PageTableEntry)
    ensures
        r@ == spec_leaf_entry(physical_addr, flags, page_size),
{
    let mut flags = flags | 0x01;
    match page_size {
        PageSize::Size4KiB => {
            if (flags & (1 << 12)) != 0 {
                flags &= !(1 << 12);
                flags |= 1 << 7;
            }
            assert(1u64 << 12 == 0x1000 && 1u64 << 7 == 0x80) by (bit_vector);
            PageTableEntry(physical_addr as u64 | flags)
        },
        _ => PageTableEntry(physical_addr as u64 | flags | PT_FLAG_LARGE),
    }
}

/// Whether the processor has pages of 1 GiB, going by the `edx` of `cpuid`
/// leaf `0x80000001`.
pub fn is_1gib_page_supported(edx: u32) -> (r: bool)
    ensures
        r == (edx & 0x0400_0000 != 0),
{
    assert(1u32 << 26 == 0x0400_0000) by (bit_vector);
    assert((edx & 0x0400_0000 == 0x0400_0000) == (edx & 0x0400_0000 != 0)) by (bit_vector);
    (edx & (1 << 26)) == (1 << 26)
}

/// The physical address of the table that lies at the virtual address
/// `directory`, where the kernel lies above `kernel_virtual_base` and all
/// of memory is mapped above `hhdm_offset`. It is what the processor is
/// given as the root of the page tables.
pub fn directory_address(directory: usize, kernel_virtual_base: usize, hhdm_offset: usize) -> (r:
    usize)
    ensures
        r == if directory > kernel_virtual_base {
            directory - kernel_virtual_base
        } else if directory > hhdm_offset {
            directory - hhdm_offset
        } else {
            directory as int
        },
{
    if directory > kernel_virtual_base {
        directory - kernel_virtual_base
    } else if directory > hhdm_offset {
        directory - hhdm_offset
    } else {
        directory
    }
}

} // verus!
