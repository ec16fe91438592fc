//! Physical frame allocator.
//!
//! Frames come from two sources: a free list of previously deallocated
//! frames, kept sorted by start address, and a lazy cursor over the usable
//! entries of the boot memory map, viewed as one flat sequence of frames.

use vstd::prelude::*;

use crate::memory::address::PhysicalAddress;
use crate::memory::frame::{PhysicalFrame, FRAME_SIZE};

verus! {

/// Memory-map entry type of memory free for kernel use.
pub const REGION_USABLE: u64 = 0;

/// One entry of the boot memory map, as plain values.
#[derive(Debug, Clone, Copy, PartialEq, Eq, Structural)]
pub struct MemoryRegion {
    pub base: u64,
    pub length: u64,
    pub entry_type: u64,
}

impl MemoryRegion {
    /// Whether the region is usable memory.
    pub open spec fn is_usable(&self) -> bool {
        self.entry_type == REGION_USABLE
    }

    /// Whether the region's span stays well inside the address space.
    pub open spec fn is_wf(&self) -> bool {
        self.base + self.length + 4096 <= u64::MAX
    }

    pub fn is_usable_region(&self) -> (r: bool)
        ensures
            r == self.is_usable(),
    {
        self.entry_type == REGION_USABLE
    }
}

/// Number of frames the region contributes: one per started 4 KiB step.
pub open spec fn region_frame_count(r: MemoryRegion) -> int {
    (r.length + 4095) / 4096
}

/// Start address of the `k`-th frame of the region.
pub open spec fn region_frame(r: MemoryRegion, k: int) -> u64 {
    (((r.base + 4096 * k) / 4096) * 4096) as u64
}

/// All frames of one region, in address order.
pub open spec fn region_frames(r: MemoryRegion) -> Seq<u64> {
    Seq::new(region_frame_count(r) as nat, |k: int| region_frame(r, k))
}

/// The flat sequence of all usable frames, in memory-map order.
pub open spec fn usable_frames_seq(regions: Seq<MemoryRegion>) -> Seq<u64>
    decreases regions.len(),
{
    if regions.len() == 0 {
        Seq::empty()
    } else {
        (if regions[0].is_usable() {
            region_frames(regions[0])
        } else {
            Seq::empty()
        }) + usable_frames_seq(regions.drop_first())
    }
}

/// The usable-frame sequence splits at any region boundary.
proof fn lemma_usable_frames_split(regions: Seq<MemoryRegion>, i: int)
    requires
        0 <= i <= regions.len(),
    ensures
        usable_frames_seq(regions) == usable_frames_seq(regions.take(i)) + usable_frames_seq(
            regions.skip(i),
        ),
    decreases i,
{
    if i == 0 {
        assert(regions.take(0) =~= Seq::empty());
        assert(regions.skip(0) =~= regions);
        assert(usable_frames_seq(regions) =~= usable_frames_seq(regions.take(0))
            + usable_frames_seq(regions.skip(0)));
    } else {
        lemma_usable_frames_split(regions.drop_first(), i - 1);
        assert(regions.take(i).drop_first() =~= regions.drop_first().take(i - 1));
        assert(regions.skip(i) =~= regions.drop_first().skip(i - 1));
        assert(regions.take(i)[0] == regions[0]);
        assert(usable_frames_seq(regions) =~= usable_frames_seq(regions.take(i))
            + usable_frames_seq(regions.skip(i)));
    }
}

/// Frames of the free list are sorted by start address.
pub open spec fn sorted_frames(s: Seq<PhysicalFrame>) -> bool {
    forall|i: int, j: int|
        0 <= i < j < s.len() ==> s[i].start_address.0 <= s[j].start_address.0
}

/// The last `n` frames of `s` are physically contiguous.
pub open spec fn tail_contiguous(s: Seq<PhysicalFrame>, n: int) -> bool {
    forall|j: int|
        s.len() - n <= j < s.len() - 1 ==> #[trigger] s[j + 1].start_address.0 == s[
            j
        ].start_address.0 + 4096
}

/// The frames covering the byte range `[addr, addr + size)`, in order.
pub open spec fn range_frames(addr: u64, size: u64) -> Seq<PhysicalFrame> {
    Seq::new(
        (((addr + size - 1) / 4096 - addr / 4096) + 1) as nat,
        |k: int| PhysicalFrame {
            start_address: PhysicalAddress(((addr / 4096 + k) * 4096) as u64),
        },
    )
}

/// Hands out 4 KiB physical frames from the boot memory map and a free
/// list of reclaimed frames.
pub struct FrameAllocator {
    pub memory_map: Vec<MemoryRegion>,
    pub reusable_frames: Vec<PhysicalFrame>,
    pub next: u64,
}

/// What `deallocate_frames` promises: the free list stays sorted, gains
/// exactly the frames of the range, and nothing else changes.
pub open spec fn deallocate_frames_post(
    pre: FrameAllocator,
    post: FrameAllocator,
    addr: u64,
    size: u64,
) -> bool {
    &&& post.memory_map == pre.memory_map
    &&& post.next == pre.next
    &&& sorted_frames(post.reusable_frames@)
    &&& post.reusable_frames@.len() == pre.reusable_frames@.len() + range_frames(addr, size).len()
    &&& forall|f: PhysicalFrame|
        post.reusable_frames@.contains(f) <==> (pre.reusable_frames@.contains(f) || range_frames(
            addr,
            size,
        ).contains(f))
    &&& (pre.reusable_frames@.len() == 0 ==> post.reusable_frames@ == range_frames(addr, size))
}

/// What `allocate_frames` promises, by which source satisfied the request.
pub open spec fn allocate_frames_post(
    pre: FrameAllocator,
    post: FrameAllocator,
    size: usize,
    r: Option<PhysicalFrame>,
) -> bool {
    let n = (size + 4095) / 4096;
    let free_len = pre.reusable_frames@.len() as int;
    &&& post.memory_map == pre.memory_map
    &&& if free_len >= n && tail_contiguous(pre.reusable_frames@, n as int) {
        // served from the tail of the free list
        &&& r == Some(pre.reusable_frames@[free_len - n])
        &&& post.reusable_frames@ == pre.reusable_frames@.take(free_len - n)
        &&& post.next == pre.next
    } else {
        &&& post.reusable_frames == pre.reusable_frames
        &&& post.next == pre.next + n
        &&& if pre.next < usable_frames_seq(pre.memory_map@).len() {
            // served from the lazy cursor over the memory map
            r == Some(PhysicalFrame {
                start_address: PhysicalAddress(
                    usable_frames_seq(pre.memory_map@)[pre.next as int],
                ),
            })
        } else {
            r == None::<PhysicalFrame>
        }
    }
}

impl FrameAllocator {
    /// Every memory-map entry fits the address space and the free list is
    /// sorted.
    pub open spec fn wf(&self) -> bool {
        &&& forall|i: int| 0 <= i < self.memory_map@.len() ==> (#[trigger] self.memory_map@[i]).is_wf()
        &&& sorted_frames(self.reusable_frames@)
    }

    pub fn new(entries: Vec<MemoryRegion>) -> (r: Self)
        requires
            forall|i: int| 0 <= i < entries@.len() ==> (#[trigger] entries@[i]).is_wf(),
        ensures
            r.wf(),
            r.memory_map == entries,
            r.reusable_frames@.len() == 0,
            r.next == 0,
    {
        Self { memory_map: entries, reusable_frames: Vec::new(), next: 0 }
    }

    /// Allocates a single 4 KiB frame.
    pub fn allocate_frame(&mut self) -> (r: Option<PhysicalFrame>)
        requires
            old(self).wf(),
            old(self).next + 1 <= u64::MAX,
        ensures
            final(self).wf(),
            allocate_frames_post(*old(self), *final(self), FRAME_SIZE, r),
    {
        self.allocate_frames(FRAME_SIZE)
    }

    /// Returns the first of `ceil(size / 4096)` frames, taken from the
    /// tail of the free list when it ends in that many contiguous frames,
    /// otherwise from the lazy cursor over usable memory.
    pub fn allocate_frames(&mut self, size: usize) -> (r: Option<PhysicalFrame>)
        requires
            old(self).wf(),
            0 < size,
            size + 4095 <= usize::MAX,
            old(self).next + (size + 4095) / 4096 <= u64::MAX,
        ensures
            final(self).wf(),
            allocate_frames_post(*old(self), *final(self), size, r),
    {
        let frame_count: usize = (size + 4095) / 4096;

        if self.reusable_frames.len() >= frame_count && self.tail_is_contiguous(frame_count) {
            let first = self.reusable_frames[self.reusable_frames.len() - frame_count];
            let new_len = self.reusable_frames.len() - frame_count;
            self.reusable_frames.truncate(new_len);
            return Some(first);
        }

        let frame = self.nth_usable_frame(self.next);
        self.next = self.next + frame_count as u64;
        frame
    }

    /// Whether the last `count` free frames are physically contiguous.
    fn tail_is_contiguous(&self, count: usize) -> (r: bool)
        requires
            1 <= count <= self.reusable_frames@.len(),
        ensures
            r == tail_contiguous(self.reusable_frames@, count as int),
    {
        let len = self.reusable_frames.len();
        let mut j: usize = len - count;
        while j + 1 < len
            invariant
                len == self.reusable_frames@.len(),
                len - count <= j,
                j <= len - 1,
                forall|i: int|
                    len - count <= i < j ==> #[trigger] self.reusable_frames@[i
                        + 1].start_address.0 == self.reusable_frames@[i].start_address.0 + 4096,
            decreases len - j,
        {
            if !(self.reusable_frames[j + 1].start_address.0 == self.reusable_frames[j]
                .start_address
                .0.wrapping_add(4096)) {
                return false;
            }
            if self.reusable_frames[j].start_address.0 > u64::MAX - 4096 {
                return false;
            }
            j = j + 1;
        }
        true
    }

    /// Pushes every frame overlapping `[addr, addr + size)` into the free
    /// list, keeping it sorted.
    pub fn deallocate_frames(&mut self, start_address: PhysicalAddress, size: usize)
        requires
            old(self).wf(),
            size >= 1,
            start_address.0 + size + 8192 <= u64::MAX,
        ensures
            final(self).wf(),
            deallocate_frames_post(*old(self), *final(self), start_address.0, size as u64),
    {
        let addr = start_address.0;
        let end_address = addr + (size as u64 - 1);

        let start_frame = PhysicalFrame::containing_address(PhysicalAddress(addr));
        let end_frame = PhysicalFrame::containing_address(PhysicalAddress(end_address));

        let ghost range = range_frames(addr, size as u64);
        let ghost pre_free = self.reusable_frames@;

        let mut iter = PhysicalFrame::range_inclusive(start_frame, end_frame);
        let mut pushed: usize = 0;
        while iter.start.start_address.0 <= end_frame.start_address.0
            invariant
                self.memory_map == old(self).memory_map,
                self.next == old(self).next,
                self.wf(),
                size >= 1,
                addr == start_address.0,
                addr + size + 8192 <= u64::MAX,
                range == range_frames(addr, size as u64),
                pre_free == old(self).reusable_frames@,
                end_frame.start_address.0 == ((addr + size - 1) / 4096) * 4096,
                iter.end == end_frame,
                0 <= pushed <= range.len(),
                iter.start.start_address.0 == range_frame_start(addr, pushed as int),
                pushed < range.len() ==> iter.start.start_address.0 <= end_frame.start_address.0,
                pushed == range.len() ==> iter.start.start_address.0 > end_frame.start_address.0,
                self.reusable_frames@.len() == pre_free.len() + pushed,
                forall|f: PhysicalFrame|
                    self.reusable_frames@.contains(f) <==> (pre_free.contains(f) || range.take(
                        pushed as int,
                    ).contains(f)),
                pre_free.len() == 0 ==> self.reusable_frames@ == range.take(pushed as int),
            decreases range.len() - pushed,
        {
            proof {
                lemma_range_frame_bounds(addr, size as u64, pushed as int);
            }
            match iter.next() {
                Some(frame) => {
                    proof {
                        assert(range[pushed as int] == frame);
                        assert(range.take(pushed as int + 1).drop_last() =~= range.take(
                            pushed as int,
                        ));
                        assert(range.take(pushed as int + 1).last() == frame);
                    }
                    let ghost p = pushed as int;
                    proof {
                        if pre_free.len() == 0 {
                            assert forall|i: int|
                                0 <= i < self.reusable_frames@.len() implies (#[trigger] self
                                .reusable_frames@[i]).start_address.0 <= frame.start_address.0 by {
                                assert(self.reusable_frames@[i] == range[i]);
                                lemma_range_frame_bounds(addr, size as u64, i);
                            }
                        }
                    }
                    insert_sorted(&mut self.reusable_frames, frame);
                    proof {
                        assert(range.take(p + 1) =~= range.take(p).push(frame));
                        let t0 = range.take(p);
                        let t1 = range.take(p + 1);
                        assert forall|g: PhysicalFrame|
                            t1.contains(g) implies (t0.contains(g) || g == frame) by {
                            let i = choose|i: int| 0 <= i < t1.len() && t1[i] == g;
                            if i < p {
                                assert(t0[i] == g);
                            }
                        }
                        assert forall|g: PhysicalFrame| t0.contains(g) implies t1.contains(g) by {
                            let i = choose|i: int| 0 <= i < t0.len() && t0[i] == g;
                            assert(t1[i] == g);
                        }
                        assert(t1[p] == frame);
                        assert(t1.contains(frame));
                        assert forall|g: PhysicalFrame|
                            self.reusable_frames@.contains(g) implies (pre_free.contains(g)
                            || t1.contains(g)) by {}
                        assert forall|g: PhysicalFrame|
                            (pre_free.contains(g) || t1.contains(g)) implies self
                            .reusable_frames@.contains(g) by {}
                    }
                    pushed = pushed + 1;
                },
                None => {
                    proof {
                        assert(false);
                    }
                },
            }
        }
        proof {
            assert(pushed == range.len());
            assert(range.take(range.len() as int) =~= range);
        }
    }

    /// The `n`-th frame of the flat usable-frame sequence, if it exists.
    fn nth_usable_frame(&self, n: u64) -> (r: Option<PhysicalFrame>)
        requires
            self.wf(),
        ensures
            if n < usable_frames_seq(self.memory_map@).len() {
                r == Some(PhysicalFrame {
                    start_address: PhysicalAddress(usable_frames_seq(self.memory_map@)[n as int]),
                })
            } else {
                r == None::<PhysicalFrame>
            },
    {
        let ghost regions = self.memory_map@;
        let mut i: usize = 0;
        let mut k: u64 = n;
        while i < self.memory_map.len()
            invariant
                self.wf(),
                regions == self.memory_map@,
                0 <= i <= regions.len(),
                k <= n,
                usable_frames_seq(regions.take(i as int)).len() == n - k,
            decreases regions.len() - i,
        {
            proof {
                lemma_usable_frames_split(regions, i as int);
                assert(regions.skip(i as int)[0] == regions[i as int]);
                assert(regions.skip(i as int).drop_first() =~= regions.skip(i as int + 1));
                lemma_usable_frames_split(regions, i as int + 1);
                assert(regions.take(i as int + 1).take(i as int) =~= regions.take(i as int));
                lemma_usable_frames_split(regions.take(i as int + 1), i as int);
                assert(regions.take(i as int + 1).skip(i as int) =~= seq![regions[i as int]]);
                assert(usable_frames_seq(seq![regions[i as int]]) =~= if regions[i as int]
                    .is_usable() {
                    region_frames(regions[i as int])
                } else {
                    Seq::empty()
                });
            }
            let region = self.memory_map[i];
            if region.is_usable_region() {
                let count = (region.length + 4095) / 4096;
                if k < count {
                    let frame_addr = ((region.base + 4096 * k) / 4096) * 4096;
                    proof {
                        assert(usable_frames_seq(regions)[n as int] == region_frames(
                            regions[i as int],
                        )[k as int]);
                    }
                    return Some(PhysicalFrame { start_address: PhysicalAddress(frame_addr) });
                }
                k = k - count;
            }
            i = i + 1;
        }
        proof {
            assert(regions.take(regions.len() as int) =~= regions);
        }
        None
    }
}

/// Start address of the `k`-th frame covering a range starting at `addr`.
pub open spec fn range_frame_start(addr: u64, k: int) -> int {
    (addr / 4096 + k) * 4096
}

/// The `k`-th frame of a range stays in bounds while `k` is in range.
proof fn lemma_range_frame_bounds(addr: u64, size: u64, k: int)
    requires
        size >= 1,
        addr + size + 8192 <= u64::MAX,
        0 <= k <= range_frames(addr, size).len(),
    ensures
        range_frame_start(addr, k) + 4096 <= u64::MAX,
        k < range_frames(addr, size).len() ==> range_frames(addr, size)[k] == (PhysicalFrame {
            start_address: PhysicalAddress(range_frame_start(addr, k) as u64),
        }),
        k < range_frames(addr, size).len() ==> range_frame_start(addr, k) <= ((addr + size - 1)
            / 4096) * 4096,
        k == range_frames(addr, size).len() ==> range_frame_start(addr, k) > ((addr + size - 1)
            / 4096) * 4096,
{
    let last = (addr + size - 1) / 4096;
    assert(addr / 4096 * 4096 <= addr);
    assert(last * 4096 <= addr + size - 1);
}

/// Inserts `f` into a sorted frame list, keeping it sorted.
fn insert_sorted(v: &mut Vec<PhysicalFrame>, f: PhysicalFrame)
    requires
        sorted_frames(old(v)@),
    ensures
        sorted_frames(final(v)@),
        final(v)@.len() == old(v)@.len() + 1,
        forall|g: PhysicalFrame| final(v)@.contains(g) <==> (old(v)@.contains(g) || g == f),
        (forall|i: int|
            0 <= i < old(v)@.len() ==> (#[trigger] old(v)@[i]).start_address.0
                <= f.start_address.0) ==> final(v)@ == old(v)@.push(f),
{
    let mut idx: usize = 0;
    while idx < v.len() && v[idx].start_address.0 <= f.start_address.0
        invariant
            0 <= idx <= v@.len(),
            forall|i: int| 0 <= i < idx ==> (#[trigger] v@[i]).start_address.0 <= f.start_address.0,
            v == old(v),
        decreases v@.len() - idx,
    {
        idx = idx + 1;
    }
    v.insert(idx, f);
    proof {
        let s = old(v)@;
        assert(v@ == s.insert(idx as int, f));
        assert forall|g: PhysicalFrame| v@.contains(g) implies (s.contains(g) || g == f) by {
            let i = choose|i: int| 0 <= i < v@.len() && v@[i] == g;
            if i < idx {
                assert(s[i] == g);
            } else if i > idx {
                assert(s[i - 1] == g);
            }
        }
        assert forall|g: PhysicalFrame| s.contains(g) implies v@.contains(g) by {
            let i = choose|i: int| 0 <= i < s.len() && s[i] == g;
            if i < idx {
                assert(v@[i] == g);
            } else {
                assert(v@[i + 1] == g);
            }
        }
        assert(v@.contains(f)) by {
            assert(v@[idx as int] == f);
        }
        if forall|i: int| 0 <= i < s.len() ==> (#[trigger] s[i]).start_address.0
            <= f.start_address.0 {
            if idx < s.len() {
                assert(s[idx as int].start_address.0 <= f.start_address.0);
                assert(false);
            }
            assert(v@ =~= s.push(f));
        }
    }
}


/// Returning a span of frames and then asking for the same span hands
/// the first returned frame back: with an empty free list, deallocating
/// `[addr, addr + size)` and allocating `size` bytes yields the frame at
/// `addr` again.
pub proof fn lemma_dealloc_then_alloc(
    a0: FrameAllocator,
    a1: FrameAllocator,
    a2: FrameAllocator,
    addr: u64,
    size: usize,
    r: Option<PhysicalFrame>,
)
    requires
        a0.reusable_frames@.len() == 0,
        addr % 4096 == 0,
        0 < size,
        size + 4095 <= usize::MAX,
        addr + size + 8192 <= u64::MAX,
        deallocate_frames_post(a0, a1, addr, size as u64),
        allocate_frames_post(a1, a2, size, r),
    ensures
        r == Some(PhysicalFrame { start_address: PhysicalAddress(addr) }),
{
    let range = range_frames(addr, size as u64);
    let n = (size + 4095) / 4096;
    assert(a1.reusable_frames@ == range);
    assert(range.len() == (addr as int + size - 1) / 4096 - addr as int / 4096 + 1);
    assert(addr as int / 4096 * 4096 == addr);
    assert((addr as int + size - 1) / 4096 - addr as int / 4096 + 1 == n) by (nonlinear_arith)
        requires
            addr % 4096 == 0,
            0 < size,
            size + 4095 <= usize::MAX,
            addr + size + 8192 <= u64::MAX,
            n == (size + 4095) / 4096,
    ;
    assert(tail_contiguous(a1.reusable_frames@, n as int));
    assert(r == Some(a1.reusable_frames@[range.len() - n]));
    assert(range[0] == PhysicalFrame { start_address: PhysicalAddress(addr) });
}

} // verus!
