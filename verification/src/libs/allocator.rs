//! A bump allocator over a fixed arena.

use vstd::prelude::*;

verus! {

/// The size of the arena in bytes.
pub const ARENA_SIZE: usize = 131072;

/// The largest alignment that the allocator serves.
pub const MAX_SUPPORTED_ALIGN: usize = 4096;

/// A bump allocator: the arena is handed out from its end downwards, and
/// nothing is ever taken back.
pub struct SimpleAllocator {
    /// How many bytes of the arena are left.
    pub remaining: usize,
}

/// How much of the arena is left after an allocation of `size` bytes
/// aligned to the power of two `align`, which is also the offset of the
/// allocation in the arena: what was left, less `size`, rounded down to
/// `align`. `None` where the alignment is over 4096 or the arena has not
/// `size` bytes left.
pub open spec fn bumped(remaining: usize, size: usize, align: usize) -> Option<usize> {
    if align > MAX_SUPPORTED_ALIGN || size > remaining {
        None
    } else {
        Some((((remaining - size) as u64) & !((align - 1) as u64)) as usize)
    }
}

impl SimpleAllocator {
    /// An allocator with all of its arena left.
    pub fn new() -> (r: Self)
        ensures
            r.remaining == ARENA_SIZE,
    {
        SimpleAllocator { remaining: ARENA_SIZE }
    }

    /// How many bytes of the arena are handed out, the gaps that alignment
    /// left included.
    pub fn get_used(&self) -> (r: usize)
        requires
            self.remaining <= ARENA_SIZE,
        ensures
            r == ARENA_SIZE - self.remaining,
    {
        let currently = self.remaining;
        ARENA_SIZE - currently
    }

    /// How many bytes of the arena are left.
    pub fn get_free(&self) -> (r: usize)
        ensures
            r == self.remaining,
    {
        self.remaining
    }

    /// Allocates `size` bytes aligned to the power of two `align` and
    /// returns their offset in the arena; see [`bumped`].
    pub fn allocate(&mut self, size: usize, align: usize) -> (r: Option<usize>)
        requires
            align > 0,
            old(self).remaining <= ARENA_SIZE,
        ensures
            r == bumped(old(self).remaining, size, align),
            final(self).remaining <= old(self).remaining,
            final(self).remaining == match r {
                Some(offset) => offset,
                None => old(self).remaining,
            },
    {
        // An alignment is a power of two, so that a mask rounds down to it.
        let align_mask_to_round_down: u64 = !((align - 1) as u64);

        if align > MAX_SUPPORTED_ALIGN {
            return None;
        }
        if size > self.remaining {
            return None;
        }
        let mut remaining = (self.remaining - size) as u64;
        let ghost before = remaining;
        remaining = remaining & align_mask_to_round_down;
        assert(remaining <= before) by (bit_vector)
            requires
                remaining == before & align_mask_to_round_down,
        ;
        self.remaining = remaining as usize;
        Some(remaining as usize)
    }

    /// Takes nothing back: a bump allocator does not.
    pub fn dealloc(&mut self, _ptr: usize, _size: usize, _align: usize)
        ensures
            final(self).remaining == old(self).remaining,
    {
    }
}

} // verus!
