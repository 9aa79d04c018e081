//! The free list of the kernel heap: the free regions of memory in the order
//! of their addresses, handed out first fit.

use crate::mem::{align_up, is_aligned, is_power_of_two, spec_align_up, PAGE_SIZE};
use vstd::prelude::*;

verus! {

/// The alignment of every free region.
pub const NODE_ALIGN: usize = 8;

/// The least size of a free region: what it takes to keep track of one.
pub const NODE_SIZE: usize = 16;

/// A free region of memory: where it starts and how long it is.
#[derive(Clone, Copy, Debug, PartialEq, Eq, Structural)]
pub struct MemNode {
    pub start: usize,
    pub size: usize,
}

impl MemNode {
    /// A region lies inside the address space.
    pub open spec fn wf(&self) -> bool {
        self.start + self.size <= usize::MAX
    }

    /// The address after the last byte of the region.
    pub open spec fn end(&self) -> int {
        self.start + self.size
    }

    /// Whether the region holds the address `addr`.
    pub open spec fn holds(&self, addr: int) -> bool {
        self.start <= addr < self.end()
    }

    /// The free region of `size` bytes at `start`.
    pub fn new(start: usize, size: usize) -> (r: Self)
        ensures
            r.start == start,
            r.size == size,
    {
        Self { start, size }
    }

    /// Where the region starts.
    pub fn addr(&self) -> (r: usize)
        ensures
            r == self.start,
    {
        self.start
    }

    /// Where the region ends: the address after its last byte.
    pub fn end_addr(&self) -> (r: usize)
        requires
            self.wf(),
        ensures
            r == self.end(),
    {
        self.addr() + self.len()
    }

    /// The length of the region in bytes.
    pub fn len(&self) -> (r: usize)
        ensures
            r == self.size,
    {
        self.size
    }
}

/// Whether one of the regions holds the address `addr`.
pub open spec fn is_free(regions: Seq<MemNode>, addr: int) -> bool {
    exists|i: int| 0 <= i < regions.len() && (#[trigger] regions[i]).holds(addr)
}

/// Whether the regions are fit to be a free list: each is aligned, large
/// enough to keep track of, and inside the address space, and each ends
/// before the next begins.
pub open spec fn is_free_list(regions: Seq<MemNode>) -> bool {
    &&& forall|i: int|
        0 <= i < regions.len() ==> {
            &&& (#[trigger] regions[i]).wf()
            &&& regions[i].size >= NODE_SIZE
            &&& is_aligned(regions[i].start, NODE_ALIGN)
        }
    &&& forall|i: int, j: int|
        0 <= i < j < regions.len() ==> (#[trigger] regions[i]).end() <= (
        #[trigger] regions[j]).start
}

/// The place of a region that starts at `ptr` in the list `regions`: before
/// the first region from `from` on that starts after `ptr`.
pub open spec fn insert_pos(regions: Seq<MemNode>, ptr: int, from: int) -> int
    decreases regions.len() - from,
{
    if from < 0 || from >= regions.len() {
        regions.len() as int
    } else if regions[from].start > ptr {
        from
    } else {
        insert_pos(regions, ptr, from + 1)
    }
}

/// The list `regions` with every two regions joined of which one ends where
/// the next begins.
pub open spec fn coalesced(regions: Seq<MemNode>) -> Seq<MemNode>
    decreases regions.len(),
{
    if regions.len() <= 1 {
        regions
    } else if regions[0].end() == regions[1].start {
        coalesced(
            seq![
                MemNode {
                    start: regions[0].start,
                    size: (regions[0].size + regions[1].size) as usize,
                },
            ] + regions.skip(2),
        )
    } else {
        seq![regions[0]] + coalesced(regions.skip(1))
    }
}

/// Where an allocation of `size` bytes, aligned to `align`, starts in the
/// free region `node`, if the region can take it: after it, either nothing
/// is left of the region or enough to keep track of.
pub open spec fn fit_in(node: MemNode, size: int, align: usize) -> Option<usize> {
    if !is_aligned(node.start, align) || node.start + size > node.end() {
        None
    } else if 0 < node.end() - (node.start + size) < NODE_SIZE {
        None
    } else {
        Some(node.start)
    }
}

/// The first region of the list, from `from` on, that can take an
/// allocation of `size` bytes aligned to `align`.
pub open spec fn first_fitting(regions: Seq<MemNode>, size: int, align: usize, from: int) -> Option<
    int,
>
    decreases regions.len() - from,
{
    if from < 0 || from >= regions.len() {
        None
    } else if fit_in(regions[from], size, align) is Some {
        Some(from)
    } else {
        first_fitting(regions, size, align, from + 1)
    }
}

/// The size and the alignment that an allocation of `size` bytes aligned to
/// `align` is made with: the alignment is at least that of a free region,
/// and the size is rounded up to the alignment and is at least the size of
/// a free region. `None` where the size does not fit half the address
/// space.
pub open spec fn spec_size_align(size: usize, align: usize) -> Option<(usize, usize)> {
    let align = if align < NODE_ALIGN {
        NODE_ALIGN
    } else {
        align
    };
    if size + align - 1 > usize::MAX / 2 {
        None
    } else {
        let padded = spec_align_up(size, align);
        Some((
            if padded < NODE_SIZE {
                NODE_SIZE
            } else {
                padded as usize
            },
            align,
        ))
    }
}

/// The list `regions` without the region at `i`.
pub open spec fn without(regions: Seq<MemNode>, i: int) -> Seq<MemNode> {
    regions.remove(i)
}

/// The free list of the kernel heap.
pub struct LinkedListAllocator {
    pub regions: Vec<MemNode>,
}

impl LinkedListAllocator {
    /// The allocator's invariant; see [`is_free_list`].
    pub open spec fn wf(&self) -> bool {
        is_free_list(self.regions@)
    }

    /// Whether the address `addr` is free.
    pub open spec fn free(&self, addr: int) -> bool {
        is_free(self.regions@, addr)
    }

    /// An allocator with no memory.
    pub fn new() -> (r: Self)
        ensures
            r.wf(),
            r.regions@.len() == 0,
    {
        Self { regions: Vec::new() }
    }

    /// The number of free regions.
    pub fn count_reginos(&self) -> (r: usize)
        ensures
            r == self.regions@.len(),
    {
        self.regions.len()
    }

    /// Writes where each free region starts and ends into `buf`, as far as
    /// `buf` has room, and returns how many it wrote.
    pub fn debug_regions(&self, buf: &mut Vec<(usize, usize)>) -> (r: usize)
        requires
            self.wf(),
        ensures
            final(buf).len() == old(buf).len(),
            r == if old(buf).len() < self.regions.len() {
                old(buf).len()
            } else {
                self.regions.len()
            },
            forall|i: int|
                0 <= i < r ==> final(buf)[i] == (self.regions@[i].start, self.regions@[i].end() as usize),
            forall|i: int| r <= i < old(buf).len() ==> final(buf)[i] == old(buf)[i],
    {
        let mut i: usize = 0;
        while i < self.regions.len() && i < buf.len()
            invariant
                self.wf(),
                buf.len() == old(buf).len(),
                i <= self.regions.len(),
                i <= buf.len(),
                forall|j: int|
                    0 <= j < i ==> buf[j] == (self.regions@[j].start, self.regions@[j].end() as usize),
                forall|j: int| i <= j < old(buf).len() ==> buf[j] == old(buf)[j],
            decreases self.regions.len() - i,
        {
            assert(self.regions@[i as int].wf());
            let region = self.regions[i];
            buf.set(i, (region.addr(), region.end_addr()));
            i += 1;
        }
        i
    }

    /// Adds the `size` bytes at `ptr` to the free list, at their place in
    /// the order of addresses.
    pub fn add_free_region(&mut self, ptr: usize, size: usize)
        requires
            old(self).wf(),
            is_aligned(ptr, NODE_ALIGN),
            size >= NODE_SIZE,
            ptr + size <= usize::MAX,
            forall|addr: int| ptr <= addr < ptr + size ==> !old(self).free(addr),
        ensures
            final(self).wf(),
            final(self).regions@ == old(self).regions@.insert(
                insert_pos(old(self).regions@, ptr as int, 0),
                MemNode { start: ptr, size },
            ),
            forall|addr: int|
                final(self).free(addr) == (old(self).free(addr) || ptr <= addr < ptr + size),
    {
        let mut at: usize = 0;
        while at < self.regions.len() && self.regions[at].addr() <= ptr
            invariant
                at <= self.regions.len(),
                self.regions@ == old(self).regions@,
                insert_pos(self.regions@, ptr as int, 0) == insert_pos(
                    self.regions@,
                    ptr as int,
                    at as int,
                ),
                forall|j: int| 0 <= j < at ==> (#[trigger] self.regions[j]).start <= ptr,
            decreases self.regions.len() - at,
        {
            at += 1;
        }
        let node = MemNode::new(ptr, size);
        self.regions.insert(at, node);
        proof {
            let before = old(self).regions@;
            let after = self.regions@;
            assert forall|j: int| 0 <= j < at implies (#[trigger] before[j]).end() <= ptr by {
                assert(before[j].wf());
                assert(before[j].size >= NODE_SIZE);
                if before[j].end() > ptr {
                    // the start of the new region would be free already
                    assert(before[j].holds(ptr as int));
                    assert(old(self).free(ptr as int));
                }
            }
            assert forall|j: int| at <= j < before.len() implies ptr + size <= (
            #[trigger] before[j]).start by {
                assert(before[at as int].start > ptr);
                if j > at {
                    assert(before[at as int].end() <= before[j].start);
                }
                if before[j].start < ptr + size {
                    assert(before[j].size >= NODE_SIZE);
                    assert(before[j].holds(before[j].start as int));
                    assert(old(self).free(before[j].start as int));
                }
            }
            assert forall|i: int, j: int| 0 <= i < j < after.len() implies (#[trigger] after[i]).end()
                <= (#[trigger] after[j]).start by {
                if i < at && j > at {
                    assert(before[i].end() <= ptr);
                    assert(ptr + size <= before[j - 1].start);
                } else if i < at && j < at {
                    assert(before[i].end() <= before[j].start);
                } else if i > at {
                    assert(before[i - 1].end() <= before[j - 1].start);
                } else if i < at {
                    assert(before[i].end() <= ptr);
                } else {
                    assert(ptr + size <= before[j - 1].start);
                }
            }
            assert forall|addr: int|
                self.free(addr) == (old(self).free(addr) || ptr <= addr < ptr + size) by {
                if self.free(addr) {
                    let i = choose|i: int| 0 <= i < after.len() && (#[trigger] after[i]).holds(addr);
                    if i < at {
                        assert(before[i].holds(addr));
                    } else if i > at {
                        assert(before[i - 1].holds(addr));
                    }
                }
                if old(self).free(addr) {
                    let i = choose|i: int|
                        0 <= i < before.len() && (#[trigger] before[i]).holds(addr);
                    if i < at {
                        assert(after[i].holds(addr));
                    } else {
                        assert(after[i + 1].holds(addr));
                    }
                }
                if ptr <= addr < ptr + size {
                    assert(after[at as int].holds(addr));
                }
            }
        }
    }
}

/// What is left of a free list after one region is taken out is a free
/// list, and what was free but for that region is free still.
pub proof fn lemma_remove_region(regions: Seq<MemNode>, i: int)
    requires
        is_free_list(regions),
        0 <= i < regions.len(),
    ensures
        is_free_list(regions.remove(i)),
        forall|addr: int|
            is_free(regions.remove(i), addr) == (is_free(regions, addr) && !regions[i].holds(addr)),
{
    let rest = regions.remove(i);
    assert forall|a: int, b: int| 0 <= a < b < rest.len() implies (#[trigger] rest[a]).end() <= (
    #[trigger] rest[b]).start by {
        let a2 = if a < i {
            a
        } else {
            a + 1
        };
        let b2 = if b < i {
            b
        } else {
            b + 1
        };
        assert(regions[a2].end() <= regions[b2].start);
    }
    assert forall|k: int| 0 <= k < rest.len() implies {
        &&& (#[trigger] rest[k]).wf()
        &&& rest[k].size >= NODE_SIZE
        &&& is_aligned(rest[k].start, NODE_ALIGN)
    } by {
        let k2 = if k < i {
            k
        } else {
            k + 1
        };
        assert(regions[k2].wf());
    }
    assert forall|addr: int|
        is_free(rest, addr) == (is_free(regions, addr) && !regions[i].holds(addr)) by {
        if is_free(rest, addr) {
            let k = choose|k: int| 0 <= k < rest.len() && (#[trigger] rest[k]).holds(addr);
            let k2 = if k < i {
                k
            } else {
                k + 1
            };
            assert(regions[k2].holds(addr));
            assert(regions[k2].wf() && regions[i].wf());
            if k2 < i {
                assert(regions[k2].end() <= regions[i].start);
            } else {
                assert(regions[i].end() <= regions[k2].start);
            }
        }
        if is_free(regions, addr) && !regions[i].holds(addr) {
            let k = choose|k: int| 0 <= k < regions.len() && (#[trigger] regions[k]).holds(addr);
            if k < i {
                assert(rest[k].holds(addr));
            } else {
                assert(rest[k - 1].holds(addr));
            }
        }
    }
}

/// Joining regions changes neither what is free nor that the list is a
/// free list.
pub proof fn lemma_coalesced(regions: Seq<MemNode>)
    requires
        is_free_list(regions),
    ensures
        is_free_list(coalesced(regions)),
        forall|addr: int| is_free(coalesced(regions), addr) == is_free(regions, addr),
        coalesced(regions).len() <= regions.len(),
        regions.len() > 0 ==> coalesced(regions).len() > 0 && coalesced(regions)[0].start
            == regions[0].start,
    decreases regions.len(),
{
    if regions.len() <= 1 {
    } else if regions[0].end() == regions[1].start {
        let merged = MemNode {
            start: regions[0].start,
            size: (regions[0].size + regions[1].size) as usize,
        };
        let joined = seq![merged] + regions.skip(2);
        assert(regions[0].wf() && regions[1].wf());
        assert(merged.end() == regions[1].end());
        assert forall|a: int, b: int| 0 <= a < b < joined.len() implies (#[trigger] joined[a]).end()
            <= (#[trigger] joined[b]).start by {
            if a == 0 {
                assert(regions[1].end() <= regions[b + 1].start);
            } else {
                assert(regions[a + 1].end() <= regions[b + 1].start);
            }
        }
        assert forall|k: int| 0 <= k < joined.len() implies {
            &&& (#[trigger] joined[k]).wf()
            &&& joined[k].size >= NODE_SIZE
            &&& is_aligned(joined[k].start, NODE_ALIGN)
        } by {
            if k > 0 {
                assert(regions[k + 1].wf());
            }
        }
        lemma_coalesced(joined);
        assert forall|addr: int| is_free(joined, addr) == is_free(regions, addr) by {
            if is_free(joined, addr) {
                let k = choose|k: int| 0 <= k < joined.len() && (#[trigger] joined[k]).holds(addr);
                if k == 0 {
                    if addr < regions[0].end() {
                        assert(regions[0].holds(addr));
                    } else {
                        assert(regions[1].holds(addr));
                    }
                } else {
                    assert(regions[k + 1].holds(addr));
                }
            }
            if is_free(regions, addr) {
                let k = choose|k: int|
                    0 <= k < regions.len() && (#[trigger] regions[k]).holds(addr);
                if k <= 1 {
                    assert(joined[0].holds(addr));
                } else {
                    assert(joined[k - 1].holds(addr));
                }
            }
        }
    } else {
        let rest = regions.skip(1);
        assert forall|a: int, b: int| 0 <= a < b < rest.len() implies (#[trigger] rest[a]).end() <= (
        #[trigger] rest[b]).start by {
            assert(regions[a + 1].end() <= regions[b + 1].start);
        }
        assert forall|k: int| 0 <= k < rest.len() implies {
            &&& (#[trigger] rest[k]).wf()
            &&& rest[k].size >= NODE_SIZE
            &&& is_aligned(rest[k].start, NODE_ALIGN)
        } by {
            assert(regions[k + 1].wf());
        }
        lemma_coalesced(rest);
        let tail = coalesced(rest);
        let all = seq![regions[0]] + tail;
        assert forall|addr: int| is_free(all, addr) == is_free(regions, addr) by {
            if is_free(all, addr) {
                let k = choose|k: int| 0 <= k < all.len() && (#[trigger] all[k]).holds(addr);
                if k == 0 {
                    assert(regions[0].holds(addr));
                } else {
                    assert(tail[k - 1].holds(addr));
                    assert(is_free(tail, addr));
                    assert(is_free(tail, addr) == is_free(rest, addr));
                    assert(is_free(rest, addr));
                    let j = choose|j: int| 0 <= j < rest.len() && (#[trigger] rest[j]).holds(addr);
                    assert(rest[j] == regions[j + 1]);
                    assert(regions[j + 1].holds(addr));
                }
            }
            if is_free(regions, addr) {
                let k = choose|k: int|
                    0 <= k < regions.len() && (#[trigger] regions[k]).holds(addr);
                if k == 0 {
                    assert(all[0].holds(addr));
                } else {
                    assert(rest[k - 1].holds(addr));
                    assert(is_free(rest, addr));
                    assert(is_free(tail, addr) == is_free(rest, addr));
                    assert(is_free(tail, addr));
                    let j = choose|j: int| 0 <= j < tail.len() && (#[trigger] tail[j]).holds(addr);
                    assert(all[j + 1] == tail[j]);
                    assert(all[j + 1].holds(addr));
                }
            }
        }
        assert forall|a: int, b: int| 0 <= a < b < all.len() implies (#[trigger] all[a]).end() <= (
        #[trigger] all[b]).start by {
            if a == 0 {
                // what lies in the tail is free in the rest, so it lies
                // behind the first region
                assert(tail[b - 1].size >= NODE_SIZE);
                assert(tail[b - 1].holds(tail[b - 1].start as int));
                let at = tail[b - 1].start as int;
                assert(is_free(tail, at));
                assert(is_free(tail, at) == is_free(rest, at));
                assert(is_free(rest, at));
                let j = choose|j: int| 0 <= j < rest.len() && (#[trigger] rest[j]).holds(at);
                assert(rest[j] == regions[j + 1]);
                assert(regions[0].end() <= regions[j + 1].start);
            } else {
                assert(tail[a - 1].end() <= tail[b - 1].start);
            }
        }
        assert forall|k: int| 0 <= k < all.len() implies {
            &&& (#[trigger] all[k]).wf()
            &&& all[k].size >= NODE_SIZE
            &&& is_aligned(all[k].start, NODE_ALIGN)
        } by {
            if k > 0 {
                assert(tail[k - 1].wf());
            }
        }
    }
}

impl LinkedListAllocator {
    /// Hands the `pages` pages of memory at `start` to the allocator.
    pub fn init(&mut self, start: usize, pages: usize)
        requires
            old(self).wf(),
            pages > 0,
            is_aligned(start, NODE_ALIGN),
            start + PAGE_SIZE * pages <= usize::MAX,
            forall|addr: int| start <= addr < start + PAGE_SIZE * pages ==> !old(self).free(addr),
        ensures
            final(self).wf(),
            forall|addr: int|
                final(self).free(addr) == (old(self).free(addr) || start <= addr < start
                    + PAGE_SIZE * pages),
    {
        self.add_free_region(start, PAGE_SIZE * pages);
    }

    /// Joins every two free regions of which one ends where the next
    /// begins; see [`coalesced`]. What is free stays free, and nothing else
    /// becomes free.
    pub fn coalesce_memory(&mut self)
        requires
            old(self).wf(),
        ensures
            final(self).wf(),
            final(self).regions@ == coalesced(old(self).regions@),
            forall|addr: int| final(self).free(addr) == old(self).free(addr),
    {
        let mut i: usize = 0;
        proof {
            assert(self.regions@.take(0) + coalesced(self.regions@.skip(0)) =~= coalesced(
                self.regions@,
            )) by {
                assert(self.regions@.skip(0) =~= self.regions@);
            }
        }
        while self.regions.len() - i > 1
            invariant
                i <= self.regions.len(),
                forall|k: int|
                    0 <= k < self.regions.len() ==> (#[trigger] self.regions[k]).wf(),
                forall|a: int, b: int|
                    0 <= a < b < self.regions.len() ==> (#[trigger] self.regions[a]).end() <= (
                    #[trigger] self.regions[b]).start,
                coalesced(old(self).regions@) == self.regions@.take(i as int) + coalesced(
                    self.regions@.skip(i as int),
                ),
            decreases self.regions.len() - i,
        {
            let ghost list = self.regions@;
            let ghost rest = list.skip(i as int);
            let current = self.regions[i];
            let next = self.regions[i + 1];
            assert(rest[0] == current && rest[1] == next);
            assert(current.wf() && next.wf());
            assert(current.end() <= next.start);
            if current.end_addr() == next.addr() {
                let new_size = current.size + next.size;
                let merged = MemNode::new(current.start, new_size);
                self.regions.set(i, merged);
                self.regions.remove(i + 1);
                proof {
                    assert(self.regions@.skip(i as int) =~= seq![merged] + rest.skip(2));
                    assert(self.regions@.take(i as int) =~= list.take(i as int));
                    assert forall|a: int, b: int| 0 <= a < b < self.regions.len() implies (
                    #[trigger] self.regions[a]).end() <= (#[trigger] self.regions[b]).start by {
                        let a2 = if a <= i {
                            a
                        } else {
                            a + 1
                        };
                        let b2 = b + 1;
                        if a == i {
                            assert(list[i + 1].end() <= list[b2].start);
                        } else if b == i {
                            assert(list[a].end() <= list[i as int].start);
                        } else if b < i {
                            assert(list[a].end() <= list[b].start);
                        } else {
                            assert(list[a2].end() <= list[b2].start);
                        }
                    }
                    assert forall|k: int| 0 <= k < self.regions.len() implies (
                    #[trigger] self.regions[k]).wf() by {
                        if k < i {
                            assert(list[k].wf());
                        } else if k > i {
                            assert(list[k + 1].wf());
                        }
                    }
                }
            } else {
                proof {
                    assert(list.take(i + 1) =~= list.take(i as int) + seq![current]);
                    assert(rest.skip(1) =~= list.skip(i + 1));
                    assert(list.take(i as int) + (seq![current] + coalesced(rest.skip(1)))
                        =~= list.take(i + 1) + coalesced(list.skip(i + 1)));
                }
                i += 1;
            }
        }
        proof {
            let list = self.regions@;
            assert(coalesced(list.skip(i as int)) =~= list.skip(i as int));
            assert(list.take(i as int) + list.skip(i as int) =~= list);
            lemma_coalesced(old(self).regions@);
        }
    }

    /// Where an allocation of `size` bytes aligned to `align` starts in the
    /// free region `node`, if the region can take it; see [`fit_in`].
    pub fn alloc_from_node(node: &MemNode, size: usize, align: usize) -> (r: Option<usize>)
        requires
            node.wf(),
            align > 0,
        ensures
            r == fit_in(*node, size as int, align),
    {
        if (node.addr() as u64) & ((align - 1) as u64) != 0 {
            return None;
        }
        let start = node.addr();
        if size > node.len() {
            // the allocation goes outside the bounds of the node
            return None;
        }
        let end = start + size;

        let extra = node.end_addr() - end;
        if extra > 0 && extra < NODE_SIZE {
            // Node size minus allocation size is less than the minimum size needed for a node,
            // thus, if we let the allocation to happen in this node, we lose track of the extra memory
            // lost by this allocation
            return None;
        }
        Some(start)
    }

    /// Takes the first free region that can take an allocation of `size`
    /// bytes aligned to `align` out of the free list; see
    /// [`first_fitting`].
    pub fn find_region(&mut self, size: usize, align: usize) -> (r: Option<MemNode>)
        requires
            old(self).wf(),
            align > 0,
        ensures
            final(self).wf(),
            match first_fitting(old(self).regions@, size as int, align, 0) {
                Some(i) => r == Some(old(self).regions@[i]) && final(self).regions@ == old(self).regions@.remove(i) && fit_in(old(self).regions@[i], size as int, align)
                    is Some && 0 <= i < old(self).regions@.len(),
                None => r is None && final(self).regions@ == old(self).regions@,
            },
    {
        let mut i: usize = 0;
        while i < self.regions.len()
            invariant
                i <= self.regions.len(),
                align > 0,
                self.regions@ == old(self).regions@,
                self.wf(),
                first_fitting(self.regions@, size as int, align, 0) == first_fitting(
                    self.regions@,
                    size as int,
                    align,
                    i as int,
                ),
            decreases self.regions.len() - i,
        {
            assert(self.regions@[i as int].wf());
            if Self::alloc_from_node(&self.regions[i], size, align).is_some() {
                // `node` is suitable for this allocation
                proof {
                    lemma_remove_region(self.regions@, i as int);
                }
                let node = self.regions.remove(i);
                return Some(node);
            }
            i += 1;
        }
        None
    }

    /// The size and the alignment that an allocation is made with; see
    /// [`spec_size_align`].
    pub fn size_align(size: usize, align: usize) -> (r: Option<(usize, usize)>)
        requires
            is_power_of_two(align),
        ensures
            r == spec_size_align(size, align),
            r is Some ==> is_power_of_two(r->Some_0.1) && r->Some_0.1 >= NODE_ALIGN
                && r->Some_0.0 >= NODE_SIZE && r->Some_0.0 >= size && is_aligned(
                r->Some_0.0,
                NODE_ALIGN,
            ),
    {
        let align = if align < NODE_ALIGN {
            assert(is_power_of_two(NODE_ALIGN)) by (bit_vector);
            NODE_ALIGN
        } else {
            align
        };
        if size > usize::MAX / 2 || align - 1 > usize::MAX / 2 - size {
            return None;
        }
        let padded = align_up(size, align);
        let size = if padded < NODE_SIZE {
            NODE_SIZE
        } else {
            padded
        };
        proof {
            let a = align as u64;
            let s = size as u64;
            let p = padded as u64;
            assert(s & 7 == 0) by (bit_vector)
                requires
                    a != 0 && a & ((a - 1) as u64) == 0,
                    a >= 8,
                    p & ((a - 1) as u64) == 0,
                    s == if p < 16 {
                        16u64
                    } else {
                        p
                    },
            ;
        }
        Some((size, align))
    }

    /// Allocates `size` bytes aligned to `align`, first fit.
    ///
    /// The request is rounded as [`spec_size_align`] says. The first free
    /// region that can take it gives up its start; what is left of the
    /// region stays free. `None` where the request cannot be rounded or no
    /// region can take it; the free list is then as it was.
    pub fn inner_alloc(&mut self, size: usize, align: usize) -> (r: Option<usize>)
        requires
            old(self).wf(),
            is_power_of_two(align),
        ensures
            final(self).wf(),
            match spec_size_align(size, align) {
                None => r is None && final(self).regions@ == old(self).regions@,
                Some((size, align)) => match first_fitting(
                    old(self).regions@,
                    size as int,
                    align,
                    0,
                ) {
                    None => r is None && final(self).regions@ == old(self).regions@,
                    Some(i) => {
                        let start = old(self).regions@[i].start;
                        &&& r == Some(start)
                        &&& is_aligned(start, align)
                        &&& forall|addr: int|
                            start <= addr < start + size ==> old(self).free(addr)
                        &&& forall|addr: int|
                            final(self).free(addr) == (old(self).free(addr) && !(start <= addr
                                < start + size))
                    },
                },
            },
    {
        let (size, align) = match Self::size_align(size, align) {
            Some(layout) => layout,
            None => {
                return None;
            },
        };

        let ghost before = self.regions@;
        match self.find_region(size, align) {
            Some(region) => {
                let ghost i = first_fitting(before, size as int, align, 0)->Some_0;
                proof {
                    lemma_remove_region(before, i);
                    assert(before[i].wf());
                }
                let end = region.addr() + size;
                let extra = region.end_addr() - end;

                if extra > 0 {
                    proof {
                        let a = align as u64;
                        let s = size as u64;
                        let b = region.start as u64;
                        let e = end as u64;
                        assert(e & 7 == 0) by (bit_vector)
                            requires
                                a != 0 && a & ((a - 1) as u64) == 0,
                                a >= 8,
                                s & 7 == 0,
                                b & ((a - 1) as u64) == 0,
                                e == b + s,
                                b + s <= 0xFFFF_FFFF_FFFF_FFFF,
                        ;
                        assert forall|addr: int| end <= addr < end + extra implies !self.free(
                            addr,
                        ) by {
                            assert(before[i].holds(addr));
                        }
                    }
                    self.add_free_region(end, extra)
                }
                proof {
                    assert forall|addr: int| region.start <= addr < region.start + size implies is_free(
                        before,
                        addr,
                    ) by {
                        assert(before[i].holds(addr));
                    }
                    assert forall|addr: int|
                        self.free(addr) == (is_free(before, addr) && !(region.start <= addr
                            < region.start + size)) by {
                        if region.start + size <= addr < region.start + region.size {
                            assert(before[i].holds(addr));
                        }
                    }
                }
                Some(region.addr())
            },
            None => None,
        }
    }

    /// Takes back an allocation of `size` bytes aligned to `align` at
    /// `ptr`: its bytes, rounded as [`spec_size_align`] says, are free
    /// again, and free regions that touch are joined. `false`, and nothing
    /// changes, where the request cannot be rounded.
    pub fn inner_dealloc(&mut self, ptr: usize, size: usize, align: usize) -> (r: bool)
        requires
            old(self).wf(),
            is_power_of_two(align),
            is_aligned(ptr, NODE_ALIGN),
            match spec_size_align(size, align) {
                Some((size, _)) => ptr + size <= usize::MAX && forall|addr: int|
                    ptr <= addr < ptr + size ==> !old(self).free(addr),
                None => true,
            },
        ensures
            final(self).wf(),
            match spec_size_align(size, align) {
                Some((size, _)) => r && final(self).regions@ == coalesced(
                    old(self).regions@.insert(
                        insert_pos(old(self).regions@, ptr as int, 0),
                        MemNode { start: ptr, size },
                    ),
                ) && forall|addr: int|
                    final(self).free(addr) == (old(self).free(addr) || ptr <= addr < ptr + size),
                None => !r && final(self).regions@ == old(self).regions@,
            },
    {
        let (size, _align) = match Self::size_align(size, align) {
            Some(layout) => layout,
            None => {
                return false;
            },
        };

        self.add_free_region(ptr, size);
        self.coalesce_memory();
        true
    }
}

} // verus!
