//! The physical memory manager: one bit per page frame, set where the frame
//! is in use.

use crate::mem::{PhysicalPtr, PAGE_SIZE};
use vstd::prelude::*;

verus! {

/// One entry of the boot loader's memory map.
#[derive(Clone, Copy, Debug, PartialEq, Eq, Structural)]
pub struct MemoryRegion {
    pub base: u64,
    pub length: u64,
    pub usable: bool,
}

/// Bit `k` of `byte`, counted from the least significant.
pub open spec fn bit_set(byte: u8, k: int) -> bool {
    (byte >> (k as u8)) & 1 == 1
}

/// `byte` with bit `k` set.
pub open spec fn with_bit_set(byte: u8, k: int) -> u8 {
    byte | (1u8 << (k as u8))
}

/// `byte` with bit `k` cleared.
pub open spec fn with_bit_clear(byte: u8, k: int) -> u8 {
    byte & !(1u8 << (k as u8))
}

/// Setting a bit sets that bit and leaves the others.
pub proof fn lemma_bit_set(byte: u8, k: int, j: int)
    requires
        0 <= k < 8,
        0 <= j < 8,
    ensures
        bit_set(with_bit_set(byte, k), j) == (j == k || bit_set(byte, j)),
{
    let k8 = k as u8;
    let j8 = j as u8;
    assert((((byte | (1u8 << k8)) >> j8) & 1 == 1) == (j8 == k8 || (byte >> j8) & 1 == 1))
        by (bit_vector)
        requires
            k8 < 8,
            j8 < 8,
    ;
}

/// Clearing a bit clears that bit and leaves the others.
pub proof fn lemma_bit_clear(byte: u8, k: int, j: int)
    requires
        0 <= k < 8,
        0 <= j < 8,
    ensures
        bit_set(with_bit_clear(byte, k), j) == (j != k && bit_set(byte, j)),
{
    let k8 = k as u8;
    let j8 = j as u8;
    assert((((byte & !(1u8 << k8)) >> j8) & 1 == 1) == (j8 != k8 && (byte >> j8) & 1 == 1))
        by (bit_vector)
        requires
            k8 < 8,
            j8 < 8,
    ;
}

/// Whether the bitmap marks page `page` as in use. Pages that the bitmap
/// does not reach count as in use.
pub open spec fn page_used(bitmap: Seq<u8>, page: int) -> bool {
    if 0 <= page && page / 8 < bitmap.len() {
        bit_set(bitmap[page / 8], page % 8)
    } else {
        true
    }
}

/// Whether the `pages` pages from `page` on are all free.
pub open spec fn free_run(bitmap: Seq<u8>, page: int, pages: int) -> bool {
    forall|i: int| page <= i < page + pages ==> !#[trigger] page_used(bitmap, i)
}

/// Whether `page` starts the first run of `pages` free pages that lies
/// between `start` and `limit`.
pub open spec fn first_fit(bitmap: Seq<u8>, start: int, limit: int, pages: int, page: int) -> bool {
    &&& pages > 0
    &&& start <= page
    &&& page + pages <= limit
    &&& free_run(bitmap, page, pages)
    &&& forall|q: int| start <= q < page ==> !#[trigger] free_run(bitmap, q, pages)
}

/// Whether no run of `pages` free pages lies between `start` and `limit`.
pub open spec fn no_fit(bitmap: Seq<u8>, start: int, limit: int, pages: int) -> bool {
    pages > 0 ==> forall|q: int|
        start <= q && q + pages <= limit ==> !#[trigger] free_run(bitmap, q, pages)
}

/// The physical memory manager.
pub struct PhysicalMemoryManager {
    /// One bit per page frame.
    pub bitmap: Vec<u8>,
    /// The number of the page frame after the last usable one.
    pub highest_page_idx: usize,
    /// Where the next search for free page frames starts.
    pub last_used_page_idx: usize,
    /// How many page frames the boot loader reported as usable.
    pub usable_pages: usize,
    /// How many page frames have been handed out and not returned.
    pub used_pages: usize,
}

impl PhysicalMemoryManager {
    /// The bitmap has a bit for every page frame up to the highest.
    pub open spec fn wf(&self) -> bool {
        self.highest_page_idx <= self.bitmap.len() * 8
    }

    /// Whether page frame `page` is in use.
    pub open spec fn used(&self, page: int) -> bool {
        page_used(self.bitmap@, page)
    }

    /// A manager of no memory.
    pub fn new() -> (r: Self)
        ensures
            r.wf(),
            r.bitmap@.len() == 0,
            r.highest_page_idx == 0,
            r.last_used_page_idx == 0,
            r.usable_pages == 0,
            r.used_pages == 0,
    {
        Self {
            bitmap: Vec::new(),
            highest_page_idx: 0,
            last_used_page_idx: 0,
            usable_pages: 0,
            used_pages: 0,
        }
    }

    /// Whether page frame `bit` is in use.
    pub fn bitmap_test(&self, bit: usize) -> (r: bool)
        ensures
            r == self.used(bit as int),
    {
        let byte_index = bit / 8;
        let bit_index = (bit % 8) as u8;
        if byte_index >= self.bitmap.len() {
            return true;
        }
        (self.bitmap[byte_index] >> bit_index) & 1 == 1
    }

    /// Marks page frame `bit` as in use. A page frame that the bitmap does
    /// not reach stays as it is.
    pub fn bitmap_set(&mut self, bit: usize)
        ensures
            final(self).bitmap@.len() == old(self).bitmap@.len(),
            forall|page: int| final(self).used(page) == (page == bit || old(self).used(page)),
            final(self).highest_page_idx == old(self).highest_page_idx,
            final(self).last_used_page_idx == old(self).last_used_page_idx,
            final(self).usable_pages == old(self).usable_pages,
            final(self).used_pages == old(self).used_pages,
    {
        let byte_index = bit / 8;
        let bit_index = (bit % 8) as u8;
        if byte_index >= self.bitmap.len() {
            return ;
        }
        let byte = self.bitmap[byte_index];
        self.bitmap.set(byte_index, byte | (1u8 << bit_index));
        proof {
            assert forall|page: int| self.used(page) == (page == bit || old(self).used(page)) by {
                if 0 <= page && page / 8 == byte_index {
                    lemma_bit_set(byte, bit_index as int, page % 8);
                }
            }
        }
    }

    /// Marks page frame `bit` as free. A page frame that the bitmap does not
    /// reach stays as it is.
    pub fn bitmap_reset(&mut self, bit: usize)
        ensures
            final(self).bitmap@.len() == old(self).bitmap@.len(),
            forall|page: int|
                final(self).used(page) == (old(self).used(page) && !(page == bit && bit / 8 < old(self).bitmap@.len())),
            final(self).highest_page_idx == old(self).highest_page_idx,
            final(self).last_used_page_idx == old(self).last_used_page_idx,
            final(self).usable_pages == old(self).usable_pages,
            final(self).used_pages == old(self).used_pages,
    {
        let byte_index = bit / 8;
        let bit_index = (bit % 8) as u8;
        if byte_index >= self.bitmap.len() {
            return ;
        }
        let byte = self.bitmap[byte_index];
        self.bitmap.set(byte_index, byte & !(1u8 << bit_index));
        proof {
            assert forall|page: int|
                self.used(page) == (old(self).used(page) && !(page == bit && bit / 8 < old(self).bitmap@.len())) by {
                if 0 <= page && page / 8 == byte_index {
                    lemma_bit_clear(byte, bit_index as int, page % 8);
                }
            }
        }
    }

    /// Searches from where the last search ended, up to page frame `limit`,
    /// for `pages` free page frames in a row, and marks the first such run
    /// as in use.
    ///
    /// The next search starts after the run that was found, or at `limit`
    /// where none was found.
    pub fn pmm_inner_alloc(&mut self, pages: usize, limit: usize) -> (r: Option<usize>)
        requires
            old(self).wf(),
            limit <= old(self).highest_page_idx,
        ensures
            final(self).wf(),
            final(self).bitmap@.len() == old(self).bitmap@.len(),
            final(self).highest_page_idx == old(self).highest_page_idx,
            final(self).usable_pages == old(self).usable_pages,
            final(self).used_pages == old(self).used_pages,
            match r {
                Some(page) => {
                    &&& first_fit(
                        old(self).bitmap@,
                        old(self).last_used_page_idx as int,
                        limit as int,
                        pages as int,
                        page as int,
                    )
                    &&& final(self).last_used_page_idx == page + pages
                    &&& forall|i: int|
                        final(self).used(i) == (old(self).used(i) || page <= i < page + pages)
                },
                None => {
                    &&& no_fit(
                        old(self).bitmap@,
                        old(self).last_used_page_idx as int,
                        limit as int,
                        pages as int,
                    )
                    &&& final(self).bitmap@ == old(self).bitmap@
                    &&& final(self).last_used_page_idx == if old(self).last_used_page_idx < limit {
                        limit
                    } else {
                        old(self).last_used_page_idx
                    }
                },
            },
    {
        let mut p: usize = 0;
        let ghost start = self.last_used_page_idx as int;
        let ghost map = self.bitmap@;

        while self.last_used_page_idx < limit
            invariant
                self.wf(),
                self.bitmap@ == map,
                map == old(self).bitmap@,
                start == old(self).last_used_page_idx,
                self.highest_page_idx == old(self).highest_page_idx,
                self.usable_pages == old(self).usable_pages,
                self.used_pages == old(self).used_pages,
                limit <= self.highest_page_idx,
                start <= self.last_used_page_idx <= limit || (start > limit
                    && self.last_used_page_idx == start),
                p <= self.last_used_page_idx - start,
                pages > 0 ==> p < pages,
                pages == 0 ==> p <= self.last_used_page_idx,
                free_run(map, self.last_used_page_idx - p, p as int),
                p < self.last_used_page_idx - start ==> page_used(
                    map,
                    self.last_used_page_idx - p - 1,
                ),
                forall|q: int|
                    start <= q < self.last_used_page_idx - p ==> !#[trigger] free_run(
                        map,
                        q,
                        pages as int,
                    ) || pages == 0,
            decreases limit - self.last_used_page_idx,
        {
            let here = self.last_used_page_idx;
            self.last_used_page_idx += 1;
            if self.bitmap_test(here) {
                proof {
                    assert forall|q: int| start <= q < here + 1 && pages > 0 implies !#[trigger] free_run(
                        map,
                        q,
                        pages as int,
                    ) by {
                        if q >= here - p {
                            // the run from q on would have to reach over `here`
                            assert(q <= here < q + pages);
                            assert(page_used(map, here as int));
                        }
                    }
                }
                p = 0;
                continue ;
            }
            p += 1;
            if p == pages {
                let page = self.last_used_page_idx - pages;
                let end = self.last_used_page_idx;
                proof {
                    assert forall|i: int| page <= i < page + pages implies !#[trigger] page_used(
                        map,
                        i,
                    ) by {
                        if i < here {
                            assert(!page_used(map, i));
                        }
                    }
                }
                let mut i: usize = page;
                while i < end
                    invariant
                        page <= i <= end,
                        end == page + pages,
                        end <= limit <= self.highest_page_idx,
                        self.wf(),
                        self.bitmap@.len() == map.len(),
                        self.highest_page_idx == old(self).highest_page_idx,
                        self.usable_pages == old(self).usable_pages,
                        self.used_pages == old(self).used_pages,
                        self.last_used_page_idx == end,
                        forall|j: int| self.used(j) == (page_used(map, j) || page <= j < i),
                    decreases end - i,
                {
                    self.bitmap_set(i);
                    i += 1;
                }
                assert forall|i: int| self.used(i) == (old(self).used(i) || page <= i < page
                    + pages) by {
                    assert(self.used(i) == (page_used(map, i) || page <= i < end));
                }
                return Some(page);
            }
        }
        proof {
            if pages > 0 && start <= limit {
                assert forall|q: int| start <= q && q + pages <= limit implies !#[trigger] free_run(
                    map,
                    q,
                    pages as int,
                ) by {
                    let last = self.last_used_page_idx as int;
                    if q >= last - p {
                        if p < last - start {
                            // q starts inside the run that is too short
                            assert(q + pages > last);
                        } else {
                            assert(q + pages > last);
                        }
                    }
                }
            }
        }
        None
    }

    /// Whether `page` is the page frame that a request for `pages` page
    /// frames in a row is answered with: the start of the first free run
    /// after the place where the last search ended, or, where there is none
    /// up to the highest page frame, of the first free run of all.
    pub open spec fn next_fit(&self, pages: int, page: int) -> bool {
        let start = self.last_used_page_idx as int;
        let limit = self.highest_page_idx as int;
        ||| first_fit(self.bitmap@, start, limit, pages, page)
        ||| no_fit(self.bitmap@, start, limit, pages) && first_fit(
            self.bitmap@,
            0,
            limit,
            pages,
            page,
        )
    }

    /// Hands out `pages` page frames in a row and returns the physical
    /// address of the first; `None` where no `pages` page frames in a row
    /// are free, and for a request of no page frames.
    ///
    /// The search goes from where the last one ended to the highest page
    /// frame, and then, if that found nothing, from the first page frame
    /// on.
    pub fn pmm_alloc_nozero(&mut self, pages: usize) -> (r: Option<PhysicalPtr<u8>>)
        requires
            old(self).wf(),
            old(self).highest_page_idx * PAGE_SIZE <= usize::MAX,
        ensures
            final(self).wf(),
            final(self).bitmap@.len() == old(self).bitmap@.len(),
            final(self).highest_page_idx == old(self).highest_page_idx,
            final(self).usable_pages == old(self).usable_pages,
            match r {
                Some(ptr) => {
                    let page = ptr@ as int / PAGE_SIZE as int;
                    &&& ptr@ == page * PAGE_SIZE
                    &&& old(self).next_fit(pages as int, page)
                    &&& forall|i: int|
                        final(self).used(i) == (old(self).used(i) || page <= i < page + pages)
                    &&& final(self).last_used_page_idx == page + pages
                    &&& final(self).used_pages == if old(self).used_pages + pages <= usize::MAX {
                        (old(self).used_pages + pages) as usize
                    } else {
                        usize::MAX
                    }
                },
                None => {
                    &&& no_fit(
                        old(self).bitmap@,
                        0,
                        old(self).highest_page_idx as int,
                        pages as int,
                    )
                    &&& final(self).bitmap@ == old(self).bitmap@
                    &&& final(self).used_pages == old(self).used_pages
                },
            },
    {
        let highest = self.highest_page_idx;
        let mut found = self.pmm_inner_alloc(pages, highest);
        let ghost mut before = *old(self);

        if found.is_none() {
            self.last_used_page_idx = 0;
            proof {
                before = *self;
            }
            found = self.pmm_inner_alloc(pages, highest);
        }
        assert(before.bitmap@ == old(self).bitmap@);
        match found {
            Some(page) => {
                self.used_pages = self.used_pages.saturating_add(pages);
                assert(page * PAGE_SIZE <= self.highest_page_idx * PAGE_SIZE) by (nonlinear_arith)
                    requires
                        page <= self.highest_page_idx,
                ;
                let ptr = PhysicalPtr::new(page * PAGE_SIZE);
                assert(ptr@ as int / PAGE_SIZE as int == page);
                assert forall|i: int|
                    self.used(i) == (old(self).used(i) || page <= i < page + pages) by {
                    assert(self.used(i) == (before.used(i) || page <= i < page + pages));
                }
                Some(ptr)
            },
            None => None,
        }
    }

    /// Takes back the `pages` page frames from the one at `ptr` on. Page
    /// frames that the bitmap does not reach are passed over.
    pub fn pmm_dealloc(&mut self, ptr: PhysicalPtr<u8>, pages: usize)
        requires
            old(self).wf(),
            ptr@ / PAGE_SIZE + pages <= usize::MAX,
        ensures
            final(self).wf(),
            final(self).bitmap@.len() == old(self).bitmap@.len(),
            final(self).highest_page_idx == old(self).highest_page_idx,
            final(self).last_used_page_idx == old(self).last_used_page_idx,
            final(self).usable_pages == old(self).usable_pages,
            final(self).used_pages == if old(self).used_pages >= pages {
                (old(self).used_pages - pages) as usize
            } else {
                0
            },
            forall|i: int|
                final(self).used(i) == (old(self).used(i) && !(ptr@ / PAGE_SIZE <= i < ptr@
                    / PAGE_SIZE + pages && i / 8 < old(self).bitmap@.len())),
    {
        let page = ptr.addr() / PAGE_SIZE;
        let end = page + pages;

        let mut i: usize = page;
        while i < end
            invariant
                page <= i <= end,
                self.wf(),
                self.bitmap@.len() == old(self).bitmap@.len(),
                self.highest_page_idx == old(self).highest_page_idx,
                self.last_used_page_idx == old(self).last_used_page_idx,
                self.usable_pages == old(self).usable_pages,
                self.used_pages == old(self).used_pages,
                forall|j: int|
                    self.used(j) == (old(self).used(j) && !(page <= j < i && j / 8 < old(self).bitmap@.len())),
            decreases end - i,
        {
            self.bitmap_reset(i);
            i += 1;
        }
        self.used_pages = self.used_pages.saturating_sub(pages);
    }

    /// The bytes of memory that the boot loader reported as usable.
    pub fn total_memory(&self) -> (r: usize)
        ensures
            r == if self.usable_pages * 4096 <= usize::MAX {
                (self.usable_pages * 4096) as usize
            } else {
                usize::MAX
            },
    {
        match self.usable_pages.checked_mul(4096) {
            Some(bytes) => bytes,
            None => usize::MAX,
        }
    }

    /// The bytes of memory that are handed out.
    pub fn used_memory(&self) -> (r: usize)
        ensures
            r == if self.used_pages * 4096 <= usize::MAX {
                (self.used_pages * 4096) as usize
            } else {
                usize::MAX
            },
    {
        match self.used_pages.checked_mul(4096) {
            Some(bytes) => bytes,
            None => usize::MAX,
        }
    }

    /// The bytes of usable memory that are not handed out.
    pub fn usable_memory(&self) -> (r: usize)
        ensures
            r == if self.total_memory_spec() >= self.used_memory_spec() {
                (self.total_memory_spec() - self.used_memory_spec()) as usize
            } else {
                0
            },
    {
        self.total_memory().saturating_sub(self.used_memory())
    }

    /// What [`Self::total_memory`] returns.
    pub open spec fn total_memory_spec(&self) -> usize {
        if self.usable_pages * 4096 <= usize::MAX {
            (self.usable_pages * 4096) as usize
        } else {
            usize::MAX
        }
    }

    /// What [`Self::used_memory`] returns.
    pub open spec fn used_memory_spec(&self) -> usize {
        if self.used_pages * 4096 <= usize::MAX {
            (self.used_pages * 4096) as usize
        } else {
            usize::MAX
        }
    }
}

impl MemoryRegion {
    /// The first page frame of the region.
    pub open spec fn first_page(self) -> int {
        self.base as int / PAGE_SIZE as int
    }

    /// The number of whole pages in the region.
    pub open spec fn page_count(self) -> int {
        self.length as int / PAGE_SIZE as int
    }

    /// Whether the region is usable and page frame `page` is one of its
    /// first `count` page frames.
    pub open spec fn offers(self, page: int, count: int) -> bool {
        self.usable && self.first_page() <= page < self.first_page() + count
    }

    /// Whether the region is usable and holds page frame `page`.
    pub open spec fn holds(self, page: int) -> bool {
        self.offers(page, self.page_count())
    }
}

/// Whether one of the first `upto` regions holds page frame `page`.
pub open spec fn held_by(regions: Seq<MemoryRegion>, upto: int, page: int) -> bool {
    exists|k: int| 0 <= k < upto && k < regions.len() && (#[trigger] regions[k]).holds(page)
}

/// The sum of the page counts of the usable regions among the first `upto`.
pub open spec fn usable_page_count(regions: Seq<MemoryRegion>, upto: int) -> int
    decreases upto,
{
    if upto <= 0 {
        0
    } else {
        usable_page_count(regions, upto - 1) + if regions[upto - 1].usable {
            regions[upto - 1].page_count()
        } else {
            0
        }
    }
}

/// The end of the usable region that ends last among the first `upto`, or 0
/// where none of them is usable.
pub open spec fn highest_end(regions: Seq<MemoryRegion>, upto: int) -> int
    decreases upto,
{
    if upto <= 0 {
        0
    } else {
        let rest = highest_end(regions, upto - 1);
        let region = regions[upto - 1];
        if region.usable && rest < region.base + region.length {
            region.base + region.length
        } else {
            rest
        }
    }
}

/// The number of page frames that the memory map `regions` calls for: up to
/// the end of the last usable region.
pub open spec fn highest_page(regions: Seq<MemoryRegion>) -> int {
    highest_end(regions, regions.len() as int) / PAGE_SIZE as int
}

/// Whether some usable region of `regions` has `bytes` bytes.
pub open spec fn has_home(regions: Seq<MemoryRegion>, bytes: int) -> bool {
    exists|k: int| 0 <= k < regions.len() && (#[trigger] regions[k]).usable && regions[k].length >= bytes
}

/// The number of bytes that the bitmap for `pages` page frames takes: one
/// bit per page frame, rounded up to whole pages.
pub open spec fn bitmap_bytes(pages: int) -> int {
    ((pages + 7) / 8 + 4095) / 4096 * 4096
}

impl PhysicalMemoryManager {
    /// Sets up the manager from the boot loader's memory map.
    ///
    /// Every page frame up to the end of the last usable region gets a bit.
    /// The first usable region that is large enough gives up its start to
    /// hold the bitmap: the memory map is changed to say so. After that the
    /// page frames that the usable regions hold are free, and all others
    /// are in use. `None` where no usable region can hold the bitmap; the
    /// memory map is then as it was.
    pub fn pmm_init(memmap: &mut Vec<MemoryRegion>) -> (r: Option<Self>)
        requires
            forall|k: int|
                0 <= k < old(memmap).len() ==> (#[trigger] old(memmap)[k]).base + old(memmap)[k].length <= usize::MAX,
        ensures
            final(memmap).len() == old(memmap).len(),
            match r {
                Some(pmm) => {
                    &&& pmm.wf()
                    &&& pmm.used_pages == 0
                    &&& pmm.last_used_page_idx == 0
                    &&& pmm.usable_pages == usable_page_count(
                        old(memmap)@,
                        old(memmap).len() as int,
                    )
                    &&& pmm.highest_page_idx == highest_page(old(memmap)@)
                    &&& pmm.bitmap@.len() == bitmap_bytes(pmm.highest_page_idx as int)
                    &&& exists|home: int|
                        carved(
                            old(memmap)@,
                            final(memmap)@,
                            home,
                            bitmap_bytes(pmm.highest_page_idx as int),
                        )
                    &&& forall|page: int|
                        0 <= page < pmm.bitmap@.len() * 8 ==> (pmm.used(page) == !held_by(
                            final(memmap)@,
                            final(memmap).len() as int,
                            page,
                        ))
                },
                None => {
                    &&& final(memmap)@ == old(memmap)@
                    &&& usable_page_count(old(memmap)@, old(memmap).len() as int) >= usize::MAX
                        || !has_home(old(memmap)@, bitmap_bytes(highest_page(old(memmap)@)))
                },
            },
    {
        let mut usable_pages: usize = 0;
        let mut highest_addr: usize = 0;

        let mut k: usize = 0;
        while k < memmap.len()
            invariant
                k <= memmap.len(),
                memmap@ == old(memmap)@,
                forall|j: int|
                    0 <= j < memmap.len() ==> (#[trigger] memmap[j]).base + memmap[j].length
                        <= usize::MAX,
                usable_pages == usable_page_count(memmap@, k as int) || (usable_pages
                    == usize::MAX && usable_page_count(memmap@, k as int) >= usize::MAX),
                highest_addr == highest_end(memmap@, k as int),
            decreases memmap.len() - k,
        {
            let entry = memmap[k];
            if entry.usable {
                usable_pages = usable_pages.saturating_add(entry.length as usize / PAGE_SIZE);
                let end = (entry.base + entry.length) as usize;
                if highest_addr < end {
                    highest_addr = end;
                }
            }
            k += 1;
        }
        if usable_pages == usize::MAX {
            return None;
        }
        let highest_page_idx = highest_addr / PAGE_SIZE;
        let bitmap_size: usize = ((highest_page_idx + 7) / 8 + (PAGE_SIZE - 1)) / PAGE_SIZE
            * PAGE_SIZE;

        let mut home: usize = 0;
        let mut found = false;
        while home < memmap.len() && !found
            invariant
                home <= memmap.len(),
                memmap@ == old(memmap)@,
                found ==> home < memmap.len() && memmap[home as int].usable
                    && memmap[home as int].length >= bitmap_size,
                forall|j: int|
                    0 <= j < home ==> !((#[trigger] memmap[j]).usable && memmap[j].length
                        >= bitmap_size),
            decreases memmap.len() - home + if found {
                0int
            } else {
                1int
            },
        {
            let entry = memmap[home];
            if entry.usable && entry.length >= bitmap_size as u64 {
                found = true;
            } else {
                home += 1;
            }
        }
        if !found {
            return None;
        }
        assert(has_home(memmap@, bitmap_size as int));
        let entry = memmap[home];
        memmap.set(
            home,
            MemoryRegion {
                base: entry.base + bitmap_size as u64,
                length: entry.length - bitmap_size as u64,
                usable: true,
            },
        );
        assert(carved(old(memmap)@, memmap@, home as int, bitmap_size as int));

        // Set the bit map to non-free
        let mut bitmap: Vec<u8> = Vec::new();
        let mut n: usize = 0;
        while n < bitmap_size
            invariant
                n <= bitmap_size,
                bitmap.len() == n,
                forall|j: int| 0 <= j < n ==> bitmap[j] == 0xFF,
            decreases bitmap_size - n,
        {
            bitmap.push(0xFF);
            n += 1;
        }
        let mut pmm = Self {
            bitmap,
            highest_page_idx,
            last_used_page_idx: 0,
            usable_pages,
            used_pages: 0,
        };
        proof {
            assert forall|page: int| 0 <= page < pmm.bitmap@.len() * 8 implies pmm.used(page) by {
                let byte = pmm.bitmap@[page / 8];
                let bit = (page % 8) as u8;
                assert((0xFFu8 >> bit) & 1 == 1) by (bit_vector)
                    requires
                        bit < 8,
                ;
            }
        }

        let ghost regions = memmap@;
        let mut k: usize = 0;
        while k < memmap.len()
            invariant
                k <= memmap.len(),
                memmap@ == regions,
                forall|j: int|
                    0 <= j < regions.len() ==> (#[trigger] regions[j]).base + regions[j].length
                        <= usize::MAX,
                pmm.bitmap@.len() == bitmap_size,
                pmm.highest_page_idx == highest_page_idx,
                pmm.last_used_page_idx == 0,
                pmm.usable_pages == usable_pages,
                pmm.used_pages == 0,
                forall|page: int|
                    0 <= page < bitmap_size * 8 ==> (pmm.used(page) == !held_by(
                        regions,
                        k as int,
                        page,
                    )),
            decreases memmap.len() - k,
        {
            let entry = memmap[k];
            if entry.usable {
                let count = entry.length as usize / PAGE_SIZE;
                let ghost before = pmm;
                let mut i: usize = 0;
                while i < count
                    invariant
                        i <= count,
                        count == entry.page_count(),
                        k < regions.len(),
                        entry == regions[k as int],
                        entry.usable,
                        entry.base + entry.length <= usize::MAX,
                        pmm.bitmap@.len() == bitmap_size,
                        pmm.highest_page_idx == highest_page_idx,
                        pmm.last_used_page_idx == 0,
                        pmm.usable_pages == usable_pages,
                        pmm.used_pages == 0,
                        forall|page: int|
                            0 <= page < bitmap_size * 8 ==> (pmm.used(page) == (before.used(page)
                                && !entry.offers(page, i as int))),
                    decreases count - i,
                {
                    pmm.bitmap_reset((entry.base as usize + (i * PAGE_SIZE)) / PAGE_SIZE);
                    i += 1;
                }
                proof {
                    assert forall|page: int| 0 <= page < bitmap_size * 8 implies (pmm.used(page)
                        == !held_by(regions, k + 1, page)) by {
                        if held_by(regions, k + 1, page) {
                            let w = choose|w: int|
                                0 <= w < k + 1 && w < regions.len() && (#[trigger] regions[w]).holds(
                                    page,
                                );
                            if w < k {
                                assert(held_by(regions, k as int, page));
                            }
                        }
                        if held_by(regions, k as int, page) {
                            let w = choose|w: int|
                                0 <= w < k && w < regions.len() && (#[trigger] regions[w]).holds(
                                    page,
                                );
                            assert(regions[w].holds(page));
                        }
                        if entry.holds(page) {
                            assert(regions[k as int].holds(page));
                        }
                    }
                }
            } else {
                proof {
                    assert forall|page: int| 0 <= page < bitmap_size * 8 implies (pmm.used(page)
                        == !held_by(regions, k + 1, page)) by {
                        if held_by(regions, k + 1, page) {
                            let w = choose|w: int|
                                0 <= w < k + 1 && w < regions.len() && (#[trigger] regions[w]).holds(
                                    page,
                                );
                            assert(w < k);
                            assert(held_by(regions, k as int, page));
                        }
                        if held_by(regions, k as int, page) {
                            let w = choose|w: int|
                                0 <= w < k && w < regions.len() && (#[trigger] regions[w]).holds(
                                    page,
                                );
                            assert(regions[w].holds(page));
                        }
                    }
                }
            }
            k += 1;
        }
        assert(pmm.highest_page_idx == highest_page(old(memmap)@));
        assert(pmm.usable_pages == usable_page_count(old(memmap)@, old(memmap).len() as int));
        assert(pmm.bitmap@.len() == bitmap_bytes(pmm.highest_page_idx as int));
        assert(carved(old(memmap)@, memmap@, home as int, bitmap_bytes(pmm.highest_page_idx as int)));
        assert(pmm.wf());
        Some(pmm)
    }
}

/// Whether the memory map `after` is the memory map `before` after region
/// `home` has given up its first `bytes` bytes, where `home` is the first
/// usable region that has that many.
pub open spec fn carved(
    before: Seq<MemoryRegion>,
    after: Seq<MemoryRegion>,
    home: int,
    bytes: int,
) -> bool {
    &&& 0 <= home < before.len()
    &&& after.len() == before.len()
    &&& before[home].usable && before[home].length >= bytes
    &&& forall|j: int|
        0 <= j < home ==> !((#[trigger] before[j]).usable && before[j].length >= bytes)
    &&& after[home] == (MemoryRegion {
        base: (before[home].base + bytes) as u64,
        length: (before[home].length - bytes) as u64,
        usable: true,
    })
    &&& forall|j: int| 0 <= j < before.len() && j != home ==> #[trigger] after[j] == before[j]
}

} // verus!
