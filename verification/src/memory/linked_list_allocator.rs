//! Kernel heap allocator: a sorted free list of blocks with first-fit
//! allocation and coalescing on free.
//!
//! The model keeps the free blocks as plain `{start, size}` pairs, in
//! ascending address order, with touching neighbours always merged.

use vstd::prelude::*;

verus! {

/// Bytes reserved for the in-place header of a tracked free block; no
/// smaller region is ever tracked.
pub const BLOCK_HEADER_SIZE: usize = 16;

/// A free region of the heap.
#[derive(Debug, Clone, Copy, PartialEq, Eq, Structural)]
pub struct Block {
    pub start: usize,
    pub size: usize,
}

impl Block {
    pub fn new(start: usize, size: usize) -> (r: Self)
        ensures
            r.start == start,
            r.size == size,
    {
        Self { start, size }
    }

    pub fn start_addr(&self) -> (r: usize)
        ensures
            r == self.start,
    {
        self.start
    }

    pub fn end_addr(&self) -> (r: usize)
        requires
            self.start + self.size <= usize::MAX,
        ensures
            r == self.start + self.size,
    {
        self.start + self.size
    }
}

/// Whether heap address `a` is free in `blocks`.
pub open spec fn covers(blocks: Seq<Block>, a: int) -> bool {
    exists|i: int|
        0 <= i < blocks.len() && ((#[trigger] blocks[i]).start <= a < blocks[i].start
            + blocks[i].size)
}

/// Free blocks are in ascending order, never empty, never touching, and
/// stay well inside the address space.
pub open spec fn blocks_wf(blocks: Seq<Block>) -> bool {
    &&& forall|i: int|
        0 <= i < blocks.len() ==> (#[trigger] blocks[i]).size >= BLOCK_HEADER_SIZE && blocks[
            i
        ].start + blocks[i].size + 4096 <= usize::MAX
    &&& forall|i: int|
        0 <= i < blocks.len() - 1 ==> (#[trigger] blocks[i]).start + blocks[i].size < blocks[i
            + 1].start
}

/// Any earlier block ends strictly before any later block starts.
pub open spec fn pairwise_ordered(blocks: Seq<Block>) -> bool {
    forall|i: int, j: int|
        0 <= i < j < blocks.len() ==> (#[trigger] blocks[i]).start + blocks[i].size
            < (#[trigger] blocks[j]).start
}

/// Well-formed lists are ordered between any two positions.
proof fn lemma_wf_pairwise(blocks: Seq<Block>)
    requires
        blocks_wf(blocks),
    ensures
        pairwise_ordered(blocks),
{
    assert forall|i: int, j: int| 0 <= i < j < blocks.len() implies (#[trigger] blocks[i]).start
        + blocks[i].size < (#[trigger] blocks[j]).start by {
        lemma_blocks_ordered(blocks, i, j);
    }
}

/// In a well-formed list every earlier block ends before a later one
/// starts.
proof fn lemma_blocks_ordered(blocks: Seq<Block>, i: int, j: int)
    requires
        blocks_wf(blocks),
        0 <= i < j < blocks.len(),
    ensures
        blocks[i].start + blocks[i].size < blocks[j].start,
    decreases j - i,
{
    if j == i + 1 {
    } else {
        lemma_blocks_ordered(blocks, i + 1, j);
    }
}

/// Heap allocator backed by a free list of blocks.
pub struct LinkedListAllocator {
    pub blocks: Vec<Block>,
}

/// What `add_free_region` promises: well-formed again, and exactly the
/// bytes of `[addr, addr + size)` became free in addition.
pub open spec fn add_free_region_post(
    pre: Seq<Block>,
    post: Seq<Block>,
    addr: usize,
    size: usize,
) -> bool {
    &&& blocks_wf(post)
    &&& forall|a: int| covers(post, a) <==> (covers(pre, a) || addr <= a < addr + size)
}

/// Whether `size` bytes at alignment `align` fit inside block `b`.
pub open spec fn block_fits(b: Block, size: int, align: int) -> bool {
    spec_align_up(b.start as int, align) + size <= b.start + b.size
}

/// Index of the first block from `i` on that fits, or -1 if none does.
pub open spec fn first_fit_from(blocks: Seq<Block>, size: int, align: int, i: int) -> int
    decreases blocks.len() - i,
{
    if i < 0 || i >= blocks.len() {
        -1
    } else if block_fits(blocks[i], size, align) {
        i
    } else {
        first_fit_from(blocks, size, align, i + 1)
    }
}

/// What `alloc_block` promises. When some free block fits, the first
/// one is carved up and its aligned start returned; otherwise nothing
/// changes.
pub open spec fn alloc_block_post(
    pre: Seq<Block>,
    post: Seq<Block>,
    size: int,
    align: int,
    r: Option<usize>,
) -> bool {
    let idx = first_fit_from(pre, size, align, 0);
    &&& blocks_wf(post)
    &&& if idx == -1 {
        r == None::<usize> && post == pre
    } else {
        &&& r == Some(spec_align_up(pre[idx].start as int, align) as usize)
        &&& alloc_from_block(pre, post, size, align, spec_align_up(pre[idx].start as int, align), idx)
    }
}

/// The allocation result `a` was carved out of `pre[i]`.
pub open spec fn alloc_from_block(
    pre: Seq<Block>,
    post: Seq<Block>,
    size: int,
    align: int,
    a: int,
    i: int,
) -> bool {
    let b = pre[i];
    let a_end = a + size;
    let consumed_end = if b.start + b.size - a_end >= BLOCK_HEADER_SIZE {
        a_end
    } else {
        b.start + b.size as int
    };
    &&& a == spec_align_up(b.start as int, align)
    &&& a + size <= b.start + b.size
    &&& a % align == 0
    &&& forall|a2: int| covers(post, a2) <==> (covers(pre, a2) && !(b.start <= a2 < consumed_end))
}

/// `addr` rounded up to the next multiple of `align`.
pub open spec fn spec_align_up(addr: int, align: int) -> int {
    if addr % align == 0 {
        addr
    } else {
        addr + align - addr % align
    }
}

/// Rounding up to a positive alignment moves forward less than one
/// alignment step and lands on a multiple.
pub proof fn lemma_align_up_props(addr: int, align: int)
    requires
        align >= 1,
        addr >= 0,
    ensures
        addr <= spec_align_up(addr, align) < addr + align,
        spec_align_up(addr, align) % align == 0,
{
    if addr % align == 0 {
    } else {
        assert(0 < addr % align < align) by (nonlinear_arith)
            requires
                align >= 1,
                addr >= 0,
                addr % align != 0,
        ;
        assert((addr + (align - addr % align)) % align == 0) by (nonlinear_arith)
            requires
                align >= 1,
                addr >= 0,
        ;
    }
}

impl LinkedListAllocator {
    pub fn new() -> (r: Self)
        ensures
            r.blocks@.len() == 0,
            blocks_wf(r.blocks@),
    {
        Self { blocks: Vec::new() }
    }

    /// Hands the heap's whole span to the allocator as one free region.
    pub fn init(&mut self, heap_start: usize, heap_size: usize)
        requires
            blocks_wf(old(self).blocks@),
            heap_size >= BLOCK_HEADER_SIZE,
            heap_start + heap_size + 4096 <= usize::MAX,
            forall|i: int|
                0 <= i < old(self).blocks@.len() ==> ((#[trigger] old(self).blocks@[i]).start
                    + old(self).blocks@[i].size < heap_start || heap_start + heap_size < old(
                    self,
                ).blocks@[i].start),
        ensures
            add_free_region_post(old(self).blocks@, final(self).blocks@, heap_start, heap_size),
    {
        self.add_free_region(heap_start, heap_size)
    }

    /// Inserts the region `[addr, addr + size)` into the free list in
    /// address order, merging with a touching neighbour on either side.
    pub fn add_free_region(&mut self, addr: usize, size: usize)
        requires
            blocks_wf(old(self).blocks@),
            size >= BLOCK_HEADER_SIZE,
            addr + size + 4096 <= usize::MAX,
            // the region must be disjoint from everything already free
            forall|i: int|
                0 <= i < old(self).blocks@.len() ==> ((#[trigger] old(self).blocks@[i]).start + old(
                    self,
                ).blocks@[i].size < addr || addr + size < old(self).blocks@[i].start
                    || old(self).blocks@[i].start + old(self).blocks@[i].size == addr || addr + size
                    == old(self).blocks@[i].start),
        ensures
            add_free_region_post(old(self).blocks@, final(self).blocks@, addr, size),
    {
        let ghost pre = self.blocks@;
        proof {
            lemma_wf_pairwise(pre);
        }
        let idx = self.find_insert_index(addr);

        let merge_prev = idx > 0 && self.blocks[idx - 1].start + self.blocks[idx - 1].size == addr;
        let merge_next = idx < self.blocks.len() && addr + size == self.blocks[idx].start;

        if merge_prev && merge_next {
            let next_size = self.blocks[idx].size;
            let prev = self.blocks[idx - 1];
            self.blocks.set(
                idx - 1,
                Block { start: prev.start, size: prev.size + size + next_size },
            );
            self.blocks.remove(idx);
            proof {
                lemma_add_region_merge_both(pre, self.blocks@, addr, size, idx as int);
            }
        } else if merge_prev {
            let prev = self.blocks[idx - 1];
            self.blocks.set(idx - 1, Block { start: prev.start, size: prev.size + size });
            proof {
                lemma_add_region_merge_prev(pre, self.blocks@, addr, size, idx as int);
            }
        } else if merge_next {
            let next_size = self.blocks[idx].size;
            self.blocks.set(idx, Block { start: addr, size: size + next_size });
            proof {
                lemma_add_region_merge_next(pre, self.blocks@, addr, size, idx as int);
            }
        } else {
            self.blocks.insert(idx, Block { start: addr, size });
            proof {
                lemma_add_region_plain(pre, self.blocks@, addr, size, idx as int);
            }
        }
    }

    /// Index of the first free block that starts above `addr`.
    fn find_insert_index(&self, addr: usize) -> (r: usize)
        requires
            blocks_wf(self.blocks@),
        ensures
            0 <= r <= self.blocks@.len(),
            forall|i: int| 0 <= i < r ==> (#[trigger] self.blocks@[i]).start < addr,
            forall|i: int|
                r <= i < self.blocks@.len() ==> addr <= (#[trigger] self.blocks@[i]).start,
    {
        let mut idx: usize = 0;
        while idx < self.blocks.len() && self.blocks[idx].start < addr
            invariant
                0 <= idx <= self.blocks@.len(),
                forall|i: int| 0 <= i < idx ==> (#[trigger] self.blocks@[i]).start < addr,
            decreases self.blocks@.len() - idx,
        {
            idx = idx + 1;
        }
        proof {
            assert forall|i: int|
                idx <= i < self.blocks@.len() implies addr <= (#[trigger] self.blocks@[i]).start by {
                if idx < self.blocks@.len() && i > idx {
                    lemma_blocks_ordered(self.blocks@, idx as int, i);
                }
            }
        }
        idx
    }

    /// First-fit allocation of `size` bytes at alignment `align`.
    #[verifier::rlimit(100)]
    pub fn alloc_block(&mut self, size: usize, align: usize) -> (r: Option<usize>)
        requires
            blocks_wf(old(self).blocks@),
            1 <= size,
            1 <= align,
        ensures
            alloc_block_post(old(self).blocks@, final(self).blocks@, size as int, align as int, r),
    {
        let ghost pre = self.blocks@;
        let mut i: usize = 0;
        while i < self.blocks.len()
            invariant
                blocks_wf(pre),
                pre == old(self).blocks@,
                pre == self.blocks@,
                0 <= i <= pre.len(),
                1 <= size,
                1 <= align,
                first_fit_from(pre, size as int, align as int, 0) == first_fit_from(
                    pre,
                    size as int,
                    align as int,
                    i as int,
                ),
            decreases pre.len() - i,
        {
            let block = self.blocks[i];
            proof {
                lemma_align_up_props(block.start as int, align as int);
            }
            let block_end = block.start + block.size;
            // reject before rounding when the padding alone overshoots
            // the block, so the aligned start never overflows
            let rem = block.start % align;
            if rem != 0 && align - rem > block.size {
                proof {
                    assert(!block_fits(pre[i as int], size as int, align as int));
                }
                i = i + 1;
                continue;
            }
            let start_addr = if rem == 0 {
                block.start
            } else {
                block.start + (align - rem)
            };
            proof {
                assert(start_addr == spec_align_up(block.start as int, align as int));
            }
            if start_addr > block_end || size > block_end - start_addr {
                proof {
                    assert(!block_fits(pre[i as int], size as int, align as int));
                }
                i = i + 1;
                continue;
            }
            proof {
                assert(block_fits(pre[i as int], size as int, align as int));
                assert(first_fit_from(pre, size as int, align as int, i as int) == i);
            }
            let end_addr = start_addr + size;

            // the block is consumed; a large enough tail is re-tracked
            self.blocks.remove(i);
            proof {
                lemma_remove_keeps_wf(pre, i as int);
            }
            let tail = block_end - end_addr;
            if tail >= BLOCK_HEADER_SIZE {
                proof {
                    lemma_remove_disjoint(pre, i as int, end_addr as int, tail as int);
                }
                self.add_free_region(end_addr, tail);
                proof {
                    lemma_alloc_cover_tail(pre, self.blocks@, i as int, size as int, align as int);
                    assert(alloc_from_block(
                        pre,
                        self.blocks@,
                        size as int,
                        align as int,
                        start_addr as int,
                        i as int,
                    ));
                }
            } else {
                proof {
                    lemma_alloc_cover_whole(pre, self.blocks@, i as int, size as int, align as int);
                    assert(alloc_from_block(
                        pre,
                        self.blocks@,
                        size as int,
                        align as int,
                        start_addr as int,
                        i as int,
                    ));
                }
            }
            return Some(start_addr);
        }
        proof {
            assert(first_fit_from(pre, size as int, align as int, pre.len() as int) == -1);
        }
        None
    }

    /// Returns the block at `ptr` (with the same padded size the
    /// allocation used) to the free list.
    pub fn dealloc_block(&mut self, ptr: usize, size: usize)
        requires
            blocks_wf(old(self).blocks@),
            size >= BLOCK_HEADER_SIZE,
            ptr + size + 4096 <= usize::MAX,
            forall|i: int|
                0 <= i < old(self).blocks@.len() ==> ((#[trigger] old(self).blocks@[i]).start + old(
                    self,
                ).blocks@[i].size < ptr || ptr + size < old(self).blocks@[i].start
                    || old(self).blocks@[i].start + old(self).blocks@[i].size == ptr || ptr + size
                    == old(self).blocks@[i].start),
        ensures
            add_free_region_post(old(self).blocks@, final(self).blocks@, ptr, size),
    {
        self.add_free_region(ptr, size)
    }

    /// Pads a requested layout so the block can later hold its free-list
    /// header: the size becomes a multiple of the alignment and at least
    /// the header size.
    pub fn align_with_block_size(&self, size: usize, align: usize) -> (r: (usize, usize))
        requires
            1 <= size,
            1 <= align,
            size + align <= usize::MAX - 16,
        ensures
            r.1 == if align >= 8 {
                align as int
            } else {
                8
            },
            r.0 == ({
                let padded = spec_align_up(size as int, r.1 as int);
                if padded >= BLOCK_HEADER_SIZE {
                    padded
                } else {
                    BLOCK_HEADER_SIZE as int
                }
            }),
            r.0 >= BLOCK_HEADER_SIZE,
            r.0 <= size + r.1 + BLOCK_HEADER_SIZE,
    {
        let aalign = if align >= 8 {
            align
        } else {
            8
        };
        proof {
            lemma_align_up_props(size as int, aalign as int);
        }
        let padded = align_up(size, aalign);
        let asize = if padded >= BLOCK_HEADER_SIZE {
            padded
        } else {
            BLOCK_HEADER_SIZE
        };
        (asize, aalign)
    }
}

/// `addr` rounded up to the next multiple of `align`.
pub fn align_up(addr: usize, align: usize) -> (r: usize)
    requires
        align >= 1,
        addr + align <= usize::MAX,
    ensures
        r == spec_align_up(addr as int, align as int),
{
    let rem = addr % align;
    if rem == 0 {
        addr
    } else {
        addr + (align - rem)
    }
}

/// Removing one block keeps the list well-formed.
proof fn lemma_remove_keeps_wf(blocks: Seq<Block>, i: int)
    requires
        blocks_wf(blocks),
        0 <= i < blocks.len(),
    ensures
        blocks_wf(blocks.remove(i)),
{
    let post = blocks.remove(i);
    assert forall|k: int| 0 <= k < post.len() - 1 implies (#[trigger] post[k]).start + post[k].size
        < post[k + 1].start by {
        if k == i - 1 {
            lemma_blocks_ordered(blocks, k, k + 2);
        }
    }
}

/// After removing block `i`, the region `[end, end + tail)` inside it is
/// disjoint from every remaining block.
proof fn lemma_remove_disjoint(blocks: Seq<Block>, i: int, end: int, tail: int)
    requires
        blocks_wf(blocks),
        0 <= i < blocks.len(),
        blocks[i].start <= end,
        end + tail == blocks[i].start + blocks[i].size,
        tail >= 0,
    ensures
        forall|k: int|
            0 <= k < blocks.remove(i).len() ==> ((#[trigger] blocks.remove(i)[k]).start
                + blocks.remove(i)[k].size < end || end + tail < blocks.remove(i)[k].start
                || blocks.remove(i)[k].start + blocks.remove(i)[k].size == end || end + tail
                == blocks.remove(i)[k].start),
{
    let post = blocks.remove(i);
    assert forall|k: int| 0 <= k < post.len() implies ((#[trigger] post[k]).start + post[k].size
        < end || end + tail < post[k].start || post[k].start + post[k].size == end || end + tail
        == post[k].start) by {
        if k < i {
            lemma_blocks_ordered(blocks, k, i);
        } else {
            lemma_blocks_ordered(blocks, i, k + 1);
        }
    }
}

/// Region coalesced into both neighbours: block `idx - 1`, the region
/// and block `idx` became one.
#[verifier::rlimit(100)]
proof fn lemma_add_region_merge_both(
    pre: Seq<Block>,
    post: Seq<Block>,
    addr: usize,
    size: usize,
    idx: int,
)
    requires
        blocks_wf(pre),
        pairwise_ordered(pre),
        size >= BLOCK_HEADER_SIZE,
        addr + size + 4096 <= usize::MAX,
        0 < idx < pre.len(),
        forall|i: int| 0 <= i < idx ==> (#[trigger] pre[i]).start < addr,
        forall|i: int| idx <= i < pre.len() ==> addr <= (#[trigger] pre[i]).start,
        forall|i: int|
            0 <= i < pre.len() ==> ((#[trigger] pre[i]).start + pre[i].size < addr || addr + size
                < pre[i].start || pre[i].start + pre[i].size == addr || addr + size
                == pre[i].start),
        pre[idx - 1].start + pre[idx - 1].size == addr,
        addr + size == pre[idx].start,
        post == pre.update(
            idx - 1,
            Block {
                start: pre[idx - 1].start,
                size: (pre[idx - 1].size + size + pre[idx].size) as usize,
            },
        ).remove(idx),
    ensures
        add_free_region_post(pre, post, addr, size),
{
    assert forall|k: int| 0 <= k < post.len() - 1 implies (#[trigger] post[k]).start + post[k].size
        < post[k + 1].start by {}
    assert forall|a: int| covers(post, a) implies (covers(pre, a) || addr <= a < addr + size) by {
        let k = choose|k: int|
            0 <= k < post.len() && ((#[trigger] post[k]).start <= a < post[k].start + post[k].size);
        if k == idx - 1 {
            if a < addr {
                assert(pre[idx - 1].start <= a < pre[idx - 1].start + pre[idx - 1].size);
            } else if a >= addr + size {
                assert(pre[idx].start <= a < pre[idx].start + pre[idx].size);
            }
        } else if k < idx - 1 {
            assert(pre[k].start <= a < pre[k].start + pre[k].size);
        } else {
            assert(pre[k + 1].start <= a < pre[k + 1].start + pre[k + 1].size);
        }
    }
    assert forall|a: int| (covers(pre, a) || addr <= a < addr + size) implies covers(post, a) by {
        if covers(pre, a) {
            let k = choose|k: int|
                0 <= k < pre.len() && ((#[trigger] pre[k]).start <= a < pre[k].start + pre[k].size);
            if k == idx - 1 || k == idx {
                assert(post[idx - 1].start <= a < post[idx - 1].start + post[idx - 1].size);
            } else if k < idx - 1 {
                assert(post[k].start <= a < post[k].start + post[k].size);
            } else {
                assert(post[k - 1].start <= a < post[k - 1].start + post[k - 1].size);
            }
        } else {
            assert(post[idx - 1].start <= a < post[idx - 1].start + post[idx - 1].size);
        }
    }
}

/// Region coalesced into the block before it.
#[verifier::rlimit(100)]
proof fn lemma_add_region_merge_prev(
    pre: Seq<Block>,
    post: Seq<Block>,
    addr: usize,
    size: usize,
    idx: int,
)
    requires
        blocks_wf(pre),
        pairwise_ordered(pre),
        size >= BLOCK_HEADER_SIZE,
        addr + size + 4096 <= usize::MAX,
        0 < idx <= pre.len(),
        forall|i: int| 0 <= i < idx ==> (#[trigger] pre[i]).start < addr,
        forall|i: int| idx <= i < pre.len() ==> addr <= (#[trigger] pre[i]).start,
        forall|i: int|
            0 <= i < pre.len() ==> ((#[trigger] pre[i]).start + pre[i].size < addr || addr + size
                < pre[i].start || pre[i].start + pre[i].size == addr || addr + size
                == pre[i].start),
        pre[idx - 1].start + pre[idx - 1].size == addr,
        !(idx < pre.len() && addr + size == pre[idx].start),
        post == pre.update(
            idx - 1,
            Block { start: pre[idx - 1].start, size: (pre[idx - 1].size + size) as usize },
        ),
    ensures
        add_free_region_post(pre, post, addr, size),
{
    assert forall|k: int| 0 <= k < post.len() - 1 implies (#[trigger] post[k]).start + post[k].size
        < post[k + 1].start by {}
    assert forall|a: int| covers(post, a) implies (covers(pre, a) || addr <= a < addr + size) by {
        let k = choose|k: int|
            0 <= k < post.len() && ((#[trigger] post[k]).start <= a < post[k].start + post[k].size);
        if k == idx - 1 {
            if a < addr {
                assert(pre[idx - 1].start <= a < pre[idx - 1].start + pre[idx - 1].size);
            }
        } else {
            assert(pre[k].start <= a < pre[k].start + pre[k].size);
        }
    }
    assert forall|a: int| (covers(pre, a) || addr <= a < addr + size) implies covers(post, a) by {
        if covers(pre, a) {
            let k = choose|k: int|
                0 <= k < pre.len() && ((#[trigger] pre[k]).start <= a < pre[k].start + pre[k].size);
            if k == idx - 1 {
                assert(post[idx - 1].start <= a < post[idx - 1].start + post[idx - 1].size);
            } else {
                assert(post[k].start <= a < post[k].start + post[k].size);
            }
        } else {
            assert(post[idx - 1].start <= a < post[idx - 1].start + post[idx - 1].size);
        }
    }
}

/// Region coalesced into the block after it.
#[verifier::rlimit(100)]
proof fn lemma_add_region_merge_next(
    pre: Seq<Block>,
    post: Seq<Block>,
    addr: usize,
    size: usize,
    idx: int,
)
    requires
        blocks_wf(pre),
        pairwise_ordered(pre),
        size >= BLOCK_HEADER_SIZE,
        addr + size + 4096 <= usize::MAX,
        0 <= idx < pre.len(),
        forall|i: int| 0 <= i < idx ==> (#[trigger] pre[i]).start < addr,
        forall|i: int| idx <= i < pre.len() ==> addr <= (#[trigger] pre[i]).start,
        forall|i: int|
            0 <= i < pre.len() ==> ((#[trigger] pre[i]).start + pre[i].size < addr || addr + size
                < pre[i].start || pre[i].start + pre[i].size == addr || addr + size
                == pre[i].start),
        !(idx > 0 && pre[idx - 1].start + pre[idx - 1].size == addr),
        addr + size == pre[idx].start,
        post == pre.update(idx, Block { start: addr, size: (size + pre[idx].size) as usize }),
    ensures
        add_free_region_post(pre, post, addr, size),
{
    assert forall|k: int| 0 <= k < post.len() - 1 implies (#[trigger] post[k]).start + post[k].size
        < post[k + 1].start by {}
    assert forall|a: int| covers(post, a) implies (covers(pre, a) || addr <= a < addr + size) by {
        let k = choose|k: int|
            0 <= k < post.len() && ((#[trigger] post[k]).start <= a < post[k].start + post[k].size);
        if k == idx {
            if a >= addr + size {
                assert(pre[idx].start <= a < pre[idx].start + pre[idx].size);
            }
        } else {
            assert(pre[k].start <= a < pre[k].start + pre[k].size);
        }
    }
    assert forall|a: int| (covers(pre, a) || addr <= a < addr + size) implies covers(post, a) by {
        if covers(pre, a) {
            let k = choose|k: int|
                0 <= k < pre.len() && ((#[trigger] pre[k]).start <= a < pre[k].start + pre[k].size);
            if k == idx {
                assert(post[idx].start <= a < post[idx].start + post[idx].size);
            } else {
                assert(post[k].start <= a < post[k].start + post[k].size);
            }
        } else {
            assert(post[idx].start <= a < post[idx].start + post[idx].size);
        }
    }
}

/// Region inserted as a block of its own.
#[verifier::rlimit(100)]
proof fn lemma_add_region_plain(
    pre: Seq<Block>,
    post: Seq<Block>,
    addr: usize,
    size: usize,
    idx: int,
)
    requires
        blocks_wf(pre),
        pairwise_ordered(pre),
        size >= BLOCK_HEADER_SIZE,
        addr + size + 4096 <= usize::MAX,
        0 <= idx <= pre.len(),
        forall|i: int| 0 <= i < idx ==> (#[trigger] pre[i]).start < addr,
        forall|i: int| idx <= i < pre.len() ==> addr <= (#[trigger] pre[i]).start,
        forall|i: int|
            0 <= i < pre.len() ==> ((#[trigger] pre[i]).start + pre[i].size < addr || addr + size
                < pre[i].start || pre[i].start + pre[i].size == addr || addr + size
                == pre[i].start),
        !(idx > 0 && pre[idx - 1].start + pre[idx - 1].size == addr),
        !(idx < pre.len() && addr + size == pre[idx].start),
        post == pre.insert(idx, Block { start: addr, size }),
    ensures
        add_free_region_post(pre, post, addr, size),
{
    assert forall|k: int| 0 <= k < post.len() - 1 implies (#[trigger] post[k]).start + post[k].size
        < post[k + 1].start by {}
    assert forall|a: int| covers(post, a) implies (covers(pre, a) || addr <= a < addr + size) by {
        let k = choose|k: int|
            0 <= k < post.len() && ((#[trigger] post[k]).start <= a < post[k].start + post[k].size);
        if k < idx {
            assert(pre[k].start <= a < pre[k].start + pre[k].size);
        } else if k > idx {
            assert(pre[k - 1].start <= a < pre[k - 1].start + pre[k - 1].size);
        }
    }
    assert forall|a: int| (covers(pre, a) || addr <= a < addr + size) implies covers(post, a) by {
        if covers(pre, a) {
            let k = choose|k: int|
                0 <= k < pre.len() && ((#[trigger] pre[k]).start <= a < pre[k].start + pre[k].size);
            if k < idx {
                assert(post[k].start <= a < post[k].start + post[k].size);
            } else {
                assert(post[k + 1].start <= a < post[k + 1].start + post[k + 1].size);
            }
        } else {
            assert(post[idx].start <= a < post[idx].start + post[idx].size);
        }
    }
}

/// Coverage bookkeeping when an allocation consumed block `i` whole.
#[verifier::rlimit(100)]
#[verifier::spinoff_prover]
proof fn lemma_alloc_cover_whole(pre: Seq<Block>, post: Seq<Block>, i: int, size: int, align: int)
    requires
        blocks_wf(pre),
        0 <= i < pre.len(),
        align >= 1,
        size >= 1,
        post == pre.remove(i),
        spec_align_up(pre[i].start as int, align) + size <= pre[i].start + pre[i].size,
        pre[i].start + pre[i].size - (spec_align_up(pre[i].start as int, align) + size)
            < BLOCK_HEADER_SIZE,
    ensures
        blocks_wf(post),
        alloc_from_block(pre, post, size, align, spec_align_up(pre[i].start as int, align), i),
{
    let b = pre[i];
    let a = spec_align_up(b.start as int, align);
    lemma_align_up_props(b.start as int, align);
    lemma_remove_keeps_wf(pre, i);
    lemma_wf_pairwise(pre);
    assert forall|a2: int| covers(post, a2) implies (covers(pre, a2) && !(b.start <= a2 < b.start
        + b.size)) by {
        let k = choose|k: int|
            0 <= k < post.len() && ((#[trigger] post[k]).start <= a2 < post[k].start
                + post[k].size);
        if k < i {
            assert(pre[k].start <= a2 < pre[k].start + pre[k].size);
        } else {
            assert(pre[k + 1].start <= a2 < pre[k + 1].start + pre[k + 1].size);
        }
    }
    assert forall|a2: int| (covers(pre, a2) && !(b.start <= a2 < b.start + b.size)) implies covers(
        post,
        a2,
    ) by {
        let k = choose|k: int|
            0 <= k < pre.len() && ((#[trigger] pre[k]).start <= a2 < pre[k].start + pre[k].size);
        if k < i {
            assert(post[k].start <= a2 < post[k].start + post[k].size);
        } else {
            assert(post[k - 1].start <= a2 < post[k - 1].start + post[k - 1].size);
        }
    }
}

/// Coverage bookkeeping when an allocation consumed block `i` and the
/// tail remainder went back to the free list.
#[verifier::rlimit(100)]
#[verifier::spinoff_prover]
proof fn lemma_alloc_cover_tail(pre: Seq<Block>, post: Seq<Block>, i: int, size: int, align: int)
    requires
        blocks_wf(pre),
        0 <= i < pre.len(),
        align >= 1,
        size >= 1,
        spec_align_up(pre[i].start as int, align) + size <= pre[i].start + pre[i].size,
        pre[i].start + pre[i].size - (spec_align_up(pre[i].start as int, align) + size)
            >= BLOCK_HEADER_SIZE,
        add_free_region_post(
            pre.remove(i),
            post,
            (spec_align_up(pre[i].start as int, align) + size) as usize,
            (pre[i].start + pre[i].size - (spec_align_up(pre[i].start as int, align)
                + size)) as usize,
        ),
    ensures
        blocks_wf(post),
        alloc_from_block(pre, post, size, align, spec_align_up(pre[i].start as int, align), i),
{
    let b = pre[i];
    let a = spec_align_up(b.start as int, align);
    let a_end = a + size;
    lemma_align_up_props(b.start as int, align);
    lemma_wf_pairwise(pre);
    let mid = pre.remove(i);
    assert forall|a2: int| covers(mid, a2) implies (covers(pre, a2) && !(b.start <= a2 < b.start
        + b.size)) by {
        let k = choose|k: int|
            0 <= k < mid.len() && ((#[trigger] mid[k]).start <= a2 < mid[k].start + mid[k].size);
        if k < i {
            assert(pre[k].start <= a2 < pre[k].start + pre[k].size);
        } else {
            assert(pre[k + 1].start <= a2 < pre[k + 1].start + pre[k + 1].size);
        }
    }
    assert forall|a2: int| (covers(pre, a2) && !(b.start <= a2 < b.start + b.size)) implies covers(
        mid,
        a2,
    ) by {
        let k = choose|k: int|
            0 <= k < pre.len() && ((#[trigger] pre[k]).start <= a2 < pre[k].start + pre[k].size);
        if k < i {
            assert(mid[k].start <= a2 < mid[k].start + mid[k].size);
        } else {
            assert(mid[k - 1].start <= a2 < mid[k - 1].start + mid[k - 1].size);
        }
    }
}


/// The first-fit index is a real index and its block fits.
pub proof fn lemma_first_fit_bounds(blocks: Seq<Block>, size: int, align: int, i: int)
    requires
        0 <= i <= blocks.len(),
    ensures
        first_fit_from(blocks, size, align, i) == -1 || (i <= first_fit_from(
            blocks,
            size,
            align,
            i,
        ) < blocks.len() && block_fits(blocks[first_fit_from(blocks, size, align, i)], size, align)),
    decreases blocks.len() - i,
{
    if i < blocks.len() && !block_fits(blocks[i], size, align) {
        lemma_first_fit_bounds(blocks, size, align, i + 1);
    }
}

/// A successful allocation returns an address inside one of the blocks
/// that were free beforehand: freeing a block and allocating a layout it
/// satisfies lands inside the freed space when nothing else fits.
pub proof fn lemma_alloc_inside_free_block(
    pre: Seq<Block>,
    post: Seq<Block>,
    size: int,
    align: int,
    a: usize,
)
    requires
        align >= 1,
        size >= 1,
        blocks_wf(pre),
        alloc_block_post(pre, post, size, align, Some(a)),
    ensures
        ({
            let idx = first_fit_from(pre, size, align, 0);
            &&& 0 <= idx < pre.len()
            &&& pre[idx].start <= a
            &&& a + size <= pre[idx].start + pre[idx].size
        }),
{
    lemma_first_fit_bounds(pre, size, align, 0);
    let idx = first_fit_from(pre, size, align, 0);
    lemma_align_up_props(pre[idx].start as int, align);
}

/// Once the free bytes are exactly the heap again, the list has been
/// coalesced back into the single original region.
pub proof fn lemma_full_coverage_single_block(
    blocks: Seq<Block>,
    heap_start: usize,
    heap_size: usize,
)
    requires
        blocks_wf(blocks),
        heap_size >= 1,
        heap_start + heap_size <= usize::MAX,
        forall|a: int| #[trigger] covers(blocks, a) <==> heap_start <= a < heap_start + heap_size,
    ensures
        blocks =~= seq![Block { start: heap_start, size: heap_size }],
{
    assert(covers(blocks, heap_start as int));
    let j = choose|j: int|
        0 <= j < blocks.len() && ((#[trigger] blocks[j]).start <= heap_start < blocks[j].start
            + blocks[j].size);
    if blocks.len() >= 2 {
        let g = blocks[0].start + blocks[0].size;
        assert(covers(blocks, blocks[0].start as int));
        assert(covers(blocks, blocks[1].start as int));
        assert(blocks[0].start + blocks[0].size < blocks[1].start);
        assert(heap_start <= g < heap_start + heap_size);
        assert(covers(blocks, g));
        let k = choose|k: int|
            0 <= k < blocks.len() && ((#[trigger] blocks[k]).start <= g < blocks[k].start
                + blocks[k].size);
        if k >= 1 {
            lemma_blocks_ordered_pub(blocks, 0, k);
        }
        assert(false);
    }
    assert(blocks.len() == 1);
    let b = blocks[0];
    assert(covers(blocks, b.start as int));
    assert(heap_start <= b.start);
    assert(b.start <= heap_start);
    assert(covers(blocks, heap_start + heap_size - 1));
    assert(heap_start + heap_size <= b.start + b.size);
    if b.start + b.size > heap_start + heap_size {
        assert(b.start <= heap_start + heap_size < b.start + b.size);
        assert(covers(blocks, heap_start + heap_size));
        assert(false);
    }
}

/// Ordering fact of `blocks_wf`, usable from outside the module.
proof fn lemma_blocks_ordered_pub(blocks: Seq<Block>, i: int, j: int)
    requires
        blocks_wf(blocks),
        0 <= i < j < blocks.len(),
    ensures
        blocks[i].start + blocks[i].size < blocks[j].start,
{
    lemma_blocks_ordered(blocks, i, j);
}

} // verus!
