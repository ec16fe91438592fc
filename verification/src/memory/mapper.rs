//! 4-level page-table walker and mapper.
//!
//! The hardware walks page tables by reading physical memory through the
//! higher-half direct map. Here the tables reachable from the active root
//! are modelled as data: a set of frames, each holding 512 entries. An
//! entry that points outside the modelled set is treated as unmapped.

use vstd::prelude::*;

use crate::memory::address::{
    spec_p1_index, spec_p2_index, spec_p3_index, spec_p4_index, PhysicalAddress, VirtualAddress,
};
use crate::memory::frame::PhysicalFrame;
use crate::memory::frame_allocator::{
    allocate_frames_post, tail_contiguous, usable_frames_seq, FrameAllocator,
};
use crate::memory::paging::{
    spec_entry_addr, spec_entry_huge, spec_entry_present, spec_entry_user, spec_entry_writable,
    Page,
};

verus! {

/// Why a mapping request was refused.
#[derive(Debug, Clone, Copy, PartialEq, Eq, Structural)]
pub enum MapError {
    /// The page already has a present leaf entry.
    DoubleMap,
    /// The walk met a huge or dangling entry it cannot descend through.
    Corrupt,
    /// The frame allocator could not supply an intermediate table.
    OutOfMemory,
    /// A frame offered for a new table is already in use as a table, or
    /// the leaf frame is.
    FrameCollision,
}

/// Walks and mutates the active 4-level page table.
pub struct MemoryMapper {
    /// Virtual base of the direct physical map.
    pub physical_memory_offset: VirtualAddress,
    /// Physical frame of the level-4 table (the value of `cr3`).
    pub root_frame: u64,
    /// Frame address of each modelled table.
    pub frames: Vec<u64>,
    /// All modelled tables, flattened: table `i` owns
    /// `entries[i * 512 .. (i + 1) * 512]`.
    pub entries: Vec<u64>,
}

/// First table index whose frame is `f`, from position `i` on; -1 if none.
pub open spec fn find_from(frames: Seq<u64>, f: u64, i: int) -> int
    decreases frames.len() - i,
{
    if i < 0 || i >= frames.len() {
        -1
    } else if frames[i] == f {
        i
    } else {
        find_from(frames, f, i + 1)
    }
}

/// Table index of frame `f`, or -1 if `f` holds no modelled table.
pub open spec fn lookup_spec(s: MemoryMapper, f: u64) -> int {
    find_from(s.frames@, f, 0)
}

/// The raw 64-bit entry `idx` of table `ti`.
pub open spec fn entry_at(s: MemoryMapper, ti: int, idx: int) -> u64 {
    s.entries@[ti * 512 + idx]
}

/// One step of the walk: what entry `idx` of table `ti` leads to.
/// Returns the child table index, -2 for an absent entry, and -3 for an
/// entry that cannot be descended through (huge, or dangling).
pub open spec fn child_spec(s: MemoryMapper, ti: int, idx: int) -> int {
    let e = entry_at(s, ti, idx);
    if !spec_entry_present(e) {
        -2
    } else if spec_entry_huge(e) {
        -3
    } else if lookup_spec(s, spec_entry_addr(e)) == -1 {
        -3
    } else {
        lookup_spec(s, spec_entry_addr(e))
    }
}

/// What `translate` returns on virtual address `v`: the full 4-level
/// walk, honouring 1 GiB and 2 MiB huge entries.
pub open spec fn translate_spec(s: MemoryMapper, v: u64) -> Option<u64> {
    let t4 = lookup_spec(s, s.root_frame);
    if t4 == -1 {
        None
    } else {
        let e4 = entry_at(s, t4, spec_p4_index(v) as int);
        if !spec_entry_present(e4) || spec_entry_huge(e4) || lookup_spec(s, spec_entry_addr(e4))
            == -1 {
            None
        } else {
            let t3 = lookup_spec(s, spec_entry_addr(e4));
            let e3 = entry_at(s, t3, spec_p3_index(v) as int);
            if !spec_entry_present(e3) {
                None
            } else if spec_entry_huge(e3) {
                Some((spec_entry_addr(e3) + (v & 0x3fff_ffff)) as u64)
            } else if lookup_spec(s, spec_entry_addr(e3)) == -1 {
                None
            } else {
                let t2 = lookup_spec(s, spec_entry_addr(e3));
                let e2 = entry_at(s, t2, spec_p2_index(v) as int);
                if !spec_entry_present(e2) {
                    None
                } else if spec_entry_huge(e2) {
                    Some((spec_entry_addr(e2) + (v & 0x1f_ffff)) as u64)
                } else if lookup_spec(s, spec_entry_addr(e2)) == -1 {
                    None
                } else {
                    let t1 = lookup_spec(s, spec_entry_addr(e2));
                    let e1 = entry_at(s, t1, spec_p1_index(v) as int);
                    if !spec_entry_present(e1) {
                        None
                    } else {
                        Some((spec_entry_addr(e1) + (v & 0xfff)) as u64)
                    }
                }
            }
        }
    }
}

/// The 4-level walk for `v` ends at a present leaf entry.
pub open spec fn leaf_mapped(s: MemoryMapper, v: u64) -> bool {
    let t4 = lookup_spec(s, s.root_frame);
    t4 != -1 && child_spec(s, t4, spec_p4_index(v) as int) >= 0 && child_spec(
        s,
        child_spec(s, t4, spec_p4_index(v) as int),
        spec_p3_index(v) as int,
    ) >= 0 && child_spec(
        s,
        child_spec(s, child_spec(s, t4, spec_p4_index(v) as int), spec_p3_index(v) as int),
        spec_p2_index(v) as int,
    ) >= 0 && spec_entry_present(
        entry_at(
            s,
            child_spec(
                s,
                child_spec(s, child_spec(s, t4, spec_p4_index(v) as int), spec_p3_index(v) as int),
                spec_p2_index(v) as int,
            ),
            spec_p1_index(v) as int,
        ),
    )
}

/// The walk for `v` meets, above level 1, a present entry it cannot
/// descend through.
pub open spec fn walk_corrupt(s: MemoryMapper, v: u64) -> bool {
    let t4 = lookup_spec(s, s.root_frame);
    t4 != -1 && {
        let c4 = child_spec(s, t4, spec_p4_index(v) as int);
        c4 == -3 || (c4 >= 0 && {
            let c3 = child_spec(s, c4, spec_p3_index(v) as int);
            c3 == -3 || (c3 >= 0 && child_spec(s, c3, spec_p2_index(v) as int) == -3)
        })
    }
}

impl MemoryMapper {
    /// Tables are complete, their frames distinct, the root is modelled,
    /// and every child pointer leads to a strictly later table.
    pub open spec fn wf(&self) -> bool {
        &&& self.entries@.len() == self.frames@.len() * 512
        &&& self.frames@.len() <= 0x10_0000
        &&& lookup_spec(*self, self.root_frame) == 0
        &&& self.frames@.len() >= 1
        &&& forall|i: int, j: int| 0 <= i < j < self.frames@.len() ==> self.frames@[i] != self.frames@[j]
        &&& forall|ti: int, idx: int|
            0 <= ti < self.frames@.len() && 0 <= idx < 512 ==> (#[trigger] child_spec(
                *self,
                ti,
                idx,
            )) < self.frames@.len()
        &&& forall|ti: int, idx: int|
            0 <= ti < self.frames@.len() && 0 <= idx < 512 && (#[trigger] child_spec(
                *self,
                ti,
                idx,
            )) >= 0 ==> child_spec(*self, ti, idx) > ti
    }

    /// A mapper whose active root table at `root_frame` is still empty.
    pub fn new(physical_memory_offset: VirtualAddress, root_frame: u64) -> (r: Self)
        ensures
            r.wf(),
            r.physical_memory_offset == physical_memory_offset,
            r.root_frame == root_frame,
            r.frames@ == seq![root_frame],
            forall|idx: int| 0 <= idx < 512 ==> entry_at(r, 0, idx) == 0,
    {
        let mut entries: Vec<u64> = Vec::new();
        let mut k: usize = 0;
        while k < 512
            invariant
                0 <= k <= 512,
                entries@.len() == k,
                forall|i: int| 0 <= i < k ==> entries@[i] == 0,
            decreases 512 - k,
        {
            entries.push(0);
            k = k + 1;
        }
        let mut frames: Vec<u64> = Vec::new();
        frames.push(root_frame);
        let r = MemoryMapper { physical_memory_offset, root_frame, frames, entries };
        proof {
            assert(r.frames@ =~= seq![root_frame]);
            assert(find_from(r.frames@, root_frame, 0) == 0);
            assert forall|ti: int, idx: int|
                0 <= ti < r.frames@.len() && 0 <= idx < 512 implies (#[trigger] child_spec(
                r,
                ti,
                idx,
            )) == -2 by {
                assert(entry_at(r, ti, idx) == 0);
                crate::memory::paging::lemma_zero_entry();
            }
        }
        r
    }

    /// Index of the modelled table living in frame `f`, if any.
    fn lookup(&self, f: u64) -> (r: Option<usize>)
        ensures
            match r {
                Some(i) => lookup_spec(*self, f) == i,
                None => lookup_spec(*self, f) == -1,
            },
    {
        let mut i: usize = 0;
        while i < self.frames.len()
            invariant
                0 <= i <= self.frames@.len(),
                find_from(self.frames@, f, 0) == find_from(self.frames@, f, i as int),
            decreases self.frames@.len() - i,
        {
            if self.frames[i] == f {
                return Some(i);
            }
            i = i + 1;
        }
        None
    }

    /// Reads entry `idx` of table `ti`.
    fn read_entry(&self, ti: usize, idx: u16) -> (r: u64)
        requires
            self.wf(),
            ti < self.frames@.len(),
            idx < 512,
        ensures
            r == entry_at(*self, ti as int, idx as int),
    {
        self.entries[ti * 512 + idx as usize]
    }

    /// Writes entry `idx` of table `ti`.
    fn write_entry(&mut self, ti: usize, idx: u16, e: u64)
        requires
            old(self).wf(),
            ti < old(self).frames@.len(),
            idx < 512,
        ensures
            final(self).entries@ == old(self).entries@.update(ti as int * 512 + idx as int, e),
            final(self).frames == old(self).frames,
            final(self).root_frame == old(self).root_frame,
            final(self).physical_memory_offset == old(self).physical_memory_offset,
    {
        self.entries.set(ti * 512 + idx as usize, e);
    }

    /// Walks P4..P1 and returns the physical address `addr` maps to.
    pub fn translate_addr(&self, addr: VirtualAddress) -> (r: Option<PhysicalAddress>)
        requires
            self.wf(),
        ensures
            match r {
                Some(p) => translate_spec(*self, addr.0) == Some(p.0),
                None => translate_spec(*self, addr.0) == None::<u64>,
            },
    {
        let v = addr.0;
        let t4 = match self.lookup(self.root_frame) {
            Some(t) => t,
            None => {
                return None;
            },
        };
        let e4 = self.read_entry(t4, addr.p4_index());
        if e4 & 1 != 1 || (e4 >> 7) & 1 == 1 {
            return None;
        }
        let t3 = match self.lookup(e4 & 0x000f_ffff_ffff_f000) {
            Some(t) => t,
            None => {
                return None;
            },
        };
        proof {
            self.lemma_child_in_range(t4 as int, spec_p4_index(v) as int);
        }
        let e3 = self.read_entry(t3, addr.p3_index());
        if e3 & 1 != 1 {
            return None;
        }
        if (e3 >> 7) & 1 == 1 {
            proof {
                crate::memory::paging::lemma_entry_addr_bounds(e3);
                lemma_huge_offsets(v);
            }
            return Some(PhysicalAddress((e3 & 0x000f_ffff_ffff_f000) + (v & 0x3fff_ffff)));
        }
        let t2 = match self.lookup(e3 & 0x000f_ffff_ffff_f000) {
            Some(t) => t,
            None => {
                return None;
            },
        };
        proof {
            self.lemma_child_in_range(t3 as int, spec_p3_index(v) as int);
        }
        let e2 = self.read_entry(t2, addr.p2_index());
        if e2 & 1 != 1 {
            return None;
        }
        if (e2 >> 7) & 1 == 1 {
            proof {
                crate::memory::paging::lemma_entry_addr_bounds(e2);
                lemma_huge_offsets(v);
            }
            return Some(PhysicalAddress((e2 & 0x000f_ffff_ffff_f000) + (v & 0x1f_ffff)));
        }
        let t1 = match self.lookup(e2 & 0x000f_ffff_ffff_f000) {
            Some(t) => t,
            None => {
                return None;
            },
        };
        proof {
            self.lemma_child_in_range(t2 as int, spec_p2_index(v) as int);
        }
        let e1 = self.read_entry(t1, addr.p1_index());
        if e1 & 1 != 1 {
            return None;
        }
        proof {
            crate::memory::paging::lemma_entry_addr_bounds(e1);
            crate::memory::address::lemma_index_masks(v);
        }
        Some(PhysicalAddress((e1 & 0x000f_ffff_ffff_f000) + (v & 0xfff)))
    }


    /// Appends an empty table living in fresh frame `fa`.
    fn append_table(&mut self, fa: u64)
        requires
            old(self).wf(),
            lookup_spec(*old(self), fa) == -1,
            old(self).frames@.len() < 0x10_0000,
        ensures
            final(self).wf(),
            final(self).frames@ == old(self).frames@.push(fa),
            final(self).root_frame == old(self).root_frame,
            final(self).physical_memory_offset == old(self).physical_memory_offset,
            forall|ti: int, idx: int|
                0 <= ti < old(self).frames@.len() && 0 <= idx < 512 ==> #[trigger] entry_at(
                    *final(self),
                    ti,
                    idx,
                ) == entry_at(*old(self), ti, idx),
            forall|idx: int|
                0 <= idx < 512 ==> #[trigger] entry_at(
                    *final(self),
                    old(self).frames@.len() as int,
                    idx,
                ) == 0,
            forall|x: u64|
                #[trigger] lookup_spec(*final(self), x) == if lookup_spec(*old(self), x) != -1 {
                    lookup_spec(*old(self), x)
                } else if x == fa {
                    old(self).frames@.len() as int
                } else {
                    -1
                },
    {
        let ghost pre = *self;
        let mut k: usize = 0;
        while k < 512
            invariant
                0 <= k <= 512,
                self.frames == pre.frames,
                self.root_frame == pre.root_frame,
                self.physical_memory_offset == pre.physical_memory_offset,
                self.entries@ == pre.entries@ + Seq::new(k as nat, |j: int| 0u64),
                pre.entries@.len() + 512 <= usize::MAX,
            decreases 512 - k,
        {
            self.entries.push(0);
            proof {
                assert(self.entries@ =~= pre.entries@ + Seq::new((k + 1) as nat, |j: int| 0u64));
            }
            k = k + 1;
        }
        self.frames.push(fa);
        proof {
            let post = *self;
            let n = pre.frames@.len() as int;
            assert forall|x: u64| #[trigger] lookup_spec(post, x) == (if lookup_spec(pre, x) != -1 {
                lookup_spec(pre, x)
            } else if x == fa {
                n
            } else {
                -1
            }) by {
                lemma_find_from_push(pre.frames@, x, fa, 0);
            }
            assert forall|ti: int, idx: int|
                0 <= ti < post.frames@.len() && 0 <= idx < 512 implies (#[trigger] child_spec(
                post,
                ti,
                idx,
            )) < post.frames@.len() && (child_spec(post, ti, idx) >= 0 ==> child_spec(post, ti, idx)
                > ti) by {
                if ti < n {
                    assert(entry_at(post, ti, idx) == entry_at(pre, ti, idx));
                    assert(child_spec(pre, ti, idx) < n);
                    let e = entry_at(pre, ti, idx);
                    if spec_entry_present(e) && !spec_entry_huge(e) {
                        if lookup_spec(pre, spec_entry_addr(e)) != -1 {
                            assert(child_spec(post, ti, idx) == child_spec(pre, ti, idx));
                        }
                    }
                } else {
                    assert(entry_at(post, ti, idx) == 0);
                    crate::memory::paging::lemma_zero_entry();
                }
            }
            lemma_find_from_hit(pre.frames@, fa, 0);
            assert forall|i: int, j: int|
                0 <= i < j < post.frames@.len() implies post.frames@[i] != post.frames@[j] by {
                if j == n {
                    assert(pre.frames@[i] != fa);
                }
            }
        }
    }

    /// Writes entry `idx` of table `ti` with a value whose child pointer,
    /// if it has one, leads to a strictly later table.
    #[verifier::rlimit(100)]
    fn write_entry_wf(&mut self, ti: usize, idx: u16, e: u64)
        requires
            old(self).wf(),
            ti < old(self).frames@.len(),
            idx < 512,
            spec_entry_present(e) && !spec_entry_huge(e) ==> lookup_spec(
                *old(self),
                spec_entry_addr(e),
            ) == -1 || lookup_spec(*old(self), spec_entry_addr(e)) > ti,
        ensures
            final(self).wf(),
            final(self).frames == old(self).frames,
            final(self).root_frame == old(self).root_frame,
            final(self).physical_memory_offset == old(self).physical_memory_offset,
            entry_at(*final(self), ti as int, idx as int) == e,
            forall|tj: int, jdx: int|
                0 <= tj < old(self).frames@.len() && 0 <= jdx < 512 && !(tj == ti && jdx == idx)
                    ==> #[trigger] entry_at(*final(self), tj, jdx) == entry_at(*old(self), tj, jdx),
    {
        let ghost pre = *self;
        self.write_entry(ti, idx, e);
        proof {
            let post = *self;
            assert(entry_at(post, ti as int, idx as int) == e);
            assert forall|tj: int, jdx: int|
                0 <= tj < pre.frames@.len() && 0 <= jdx < 512 && !(tj == ti && jdx == idx)
                    implies #[trigger] entry_at(post, tj, jdx) == entry_at(pre, tj, jdx) by {
                lemma_flat_index_distinct(tj, jdx, ti as int, idx as int);
            }
            assert forall|tj: int, jdx: int|
                0 <= tj < post.frames@.len() && 0 <= jdx < 512 implies (#[trigger] child_spec(
                post,
                tj,
                jdx,
            )) < post.frames@.len() && (child_spec(post, tj, jdx) >= 0 ==> child_spec(post, tj, jdx)
                > tj) by {
                lemma_lookup_frames(post, pre);
                if tj == ti && jdx == idx {
                    let ee = entry_at(post, tj, jdx);
                    if spec_entry_present(ee) && !spec_entry_huge(ee) {
                        lemma_find_from_hit(pre.frames@, spec_entry_addr(ee), 0);
                    }
                } else {
                    assert(entry_at(post, tj, jdx) == entry_at(pre, tj, jdx));
                    assert(child_spec(post, tj, jdx) == child_spec(pre, tj, jdx));
                }
            }
        }
    }

    /// Obtains one frame for a fresh page table and checks it can serve
    /// as one: aligned, encodable, no modelled table, not `avoid`.
    fn alloc_table_frame(&self, allocator: &mut FrameAllocator, avoid: u64) -> (r: Result<
        u64,
        MapError,
    >)
        requires
            self.wf(),
            old(allocator).wf(),
            old(allocator).next + 1 <= u64::MAX,
        ensures
            final(allocator).wf(),
            final(allocator).next <= old(allocator).next + 1,
            match r {
                Ok(fa) => lookup_spec(*self, fa) == -1 && fa != avoid && fa % 4096 == 0 && fa
                    <= 0x000f_ffff_ffff_f000 && (exists|fr: PhysicalFrame|
                    #[trigger] allocate_frames_post(
                        *old(allocator),
                        *final(allocator),
                        4096,
                        Some(fr),
                    ) && fr.start_address.0 == fa),
                Err(e) => e == MapError::OutOfMemory || e == MapError::FrameCollision,
            },
            r == Err::<u64, MapError>(MapError::OutOfMemory)
                ==> final(allocator).reusable_frames@.len() == 0 && final(allocator).next
                >= usable_frames_seq(final(allocator).memory_map@).len(),
            r == Err::<u64, MapError>(MapError::FrameCollision) ==> exists|fr: PhysicalFrame|
                #[trigger] allocate_frames_post(
                    *old(allocator),
                    *final(allocator),
                    4096,
                    Some(fr),
                ) && table_frame_unusable(*self, fr, avoid),
    {
        proof {
            assert(tail_contiguous(old(allocator).reusable_frames@, 1));
        }
        match allocator.allocate_frame() {
            None => Err(MapError::OutOfMemory),
            Some(fr) => {
                let fa = fr.start_address.0;
                if fa % 4096 != 0 || fa > 0x000f_ffff_ffff_f000 || fa == avoid {
                    proof {
                        assert(allocate_frames_post(*old(allocator), *allocator, 4096, Some(fr)));
                    }
                    return Err(MapError::FrameCollision);
                }
                match self.lookup(fa) {
                    Some(_) => {
                        proof {
                            assert(allocate_frames_post(
                                *old(allocator),
                                *allocator,
                                4096,
                                Some(fr),
                            ));
                        }
                        Err(MapError::FrameCollision)
                    },
                    None => {
                        proof {
                            assert(allocate_frames_post(
                                *old(allocator),
                                *allocator,
                                4096,
                                Some(fr),
                            ));
                        }
                        Ok(fa)
                    },
                }
            },
        }
    }

    /// Maps `page` to `frame`, allocating intermediate tables as needed
    /// and OR-ing the requested flag bits into every entry of the walk.
    /// Fails without touching the tables when the page already has a
    /// present leaf, when the walk cannot be descended, or when no clean
    /// frame for an intermediate table could be had.
    #[verifier::rlimit(100)]
    pub fn map_page(
        &mut self,
        page: Page,
        frame: PhysicalFrame,
        user_accessible: bool,
        writable: bool,
        allocator: &mut FrameAllocator,
    ) -> (r: Result<(), MapError>)
        requires
            old(self).wf(),
            old(allocator).wf(),
            old(allocator).next + 4 <= u64::MAX,
            old(self).frames@.len() <= 0xf_fff0,
            page.start_address.0 % 4096 == 0,
            frame.start_address.0 % 4096 == 0,
            frame.start_address.0 <= 0x000f_ffff_ffff_f000,
        ensures
            final(self).wf(),
            final(allocator).wf(),
            final(allocator).next <= old(allocator).next + 3,
            final(self).frames@.len() <= old(self).frames@.len() + 3,
            final(self).physical_memory_offset == old(self).physical_memory_offset,
            final(self).root_frame == old(self).root_frame,
            match r {
                Ok(()) => forall|off: u64|
                    off < 4096 ==> #[trigger] translate_spec(
                        *final(self),
                        (page.start_address.0 + off) as u64,
                    ) == Some((frame.start_address.0 + off) as u64),
                Err(e) => {
                    &&& *final(self) == *old(self)
                    &&& (e == MapError::DoubleMap <==> leaf_mapped(
                        *old(self),
                        page.start_address.0,
                    ))
                    &&& (e == MapError::Corrupt <==> walk_corrupt(*old(self), page.start_address.0))
                },
            },
            r == Ok::<(), MapError>(()) ==> !leaf_mapped(*old(self), page.start_address.0)
                && !walk_corrupt(*old(self), page.start_address.0),
            r == Ok::<(), MapError>(()) ==> ({
                let es = spec_walk_entries(*final(self), page.start_address.0);
                &&& spec_entry_writable(es.3) == writable
                &&& spec_entry_user(es.3) == user_accessible
                &&& (writable ==> spec_entry_writable(es.0) && spec_entry_writable(es.1)
                    && spec_entry_writable(es.2))
                &&& (user_accessible ==> spec_entry_user(es.0) && spec_entry_user(es.1)
                    && spec_entry_user(es.2))
            }),
            r == Err::<(), MapError>(MapError::OutOfMemory)
                ==> final(allocator).reusable_frames@.len() == 0 && final(allocator).next
                >= usable_frames_seq(final(allocator).memory_map@).len(),
            r == Err::<(), MapError>(MapError::FrameCollision) ==> lookup_spec(
                *old(self),
                frame.start_address.0,
            ) >= 0 || (exists|a1: FrameAllocator, a2: FrameAllocator, fr: PhysicalFrame|
                draws_reach(*old(allocator), a1, 2) && #[trigger] allocate_frames_post(
                    a1,
                    a2,
                    4096,
                    Some(fr),
                ) && (table_frame_unusable(*old(self), fr, frame.start_address.0) || (exists|
                    b1: FrameAllocator,
                    b2: FrameAllocator,
                    fr2: PhysicalFrame,
                |
                    draws_reach(*old(allocator), b1, 2) && #[trigger] allocate_frames_post(
                        b1,
                        b2,
                        4096,
                        Some(fr2),
                    ) && !(b1 == a1) && fr2.start_address.0 == fr.start_address.0))),
    {
        let ghost s0 = *self;
        let ghost alloc0 = *allocator;
        let v = page.start_address.0;
        let f = frame.start_address.0;
        let flags: u64 = 1 | (if writable { 2u64 } else { 0u64 }) | (if user_accessible {
            4u64
        } else {
            0u64
        });
        proof {
            assert(flags < 8 && flags & 1 == 1 && ((flags & 2 == 2) == writable) && ((flags & 4
                == 4) == user_accessible)) by (bit_vector)
                requires
                    flags == 1u64 | (if writable { 2u64 } else { 0u64 }) | (if user_accessible {
                        4u64
                    } else {
                        0u64
                    }),
            ;
        }
        let p4i = page.p4_index();
        let p3i = page.p3_index();
        let p2i = page.p2_index();
        let p1i = page.p1_index();

        // Read-only walk: find the existing tables of the path and refuse
        // early, before anything is changed.
        let t4: usize = match self.lookup(self.root_frame) {
            Some(t) => t,
            None => {
                proof {
                    assert(false);
                }
                0
            },
        };
        let e4 = self.read_entry(t4, p4i);
        let mut t3o: Option<usize> = None;
        let mut t2o: Option<usize> = None;
        let mut t1o: Option<usize> = None;
        let mut e3: u64 = 0;
        let mut e2: u64 = 0;
        let mut e1: u64 = 0;
        if e4 & 1 == 1 {
            if (e4 >> 7) & 1 == 1 {
                return Err(MapError::Corrupt);
            }
            match self.lookup(e4 & 0x000f_ffff_ffff_f000) {
                None => {
                    return Err(MapError::Corrupt);
                },
                Some(t3) => {
                    t3o = Some(t3);
                    proof {
                        self.lemma_child_in_range(t4 as int, p4i as int);
                    }
                    e3 = self.read_entry(t3, p3i);
                    if e3 & 1 == 1 {
                        if (e3 >> 7) & 1 == 1 {
                            return Err(MapError::Corrupt);
                        }
                        match self.lookup(e3 & 0x000f_ffff_ffff_f000) {
                            None => {
                                return Err(MapError::Corrupt);
                            },
                            Some(t2) => {
                                t2o = Some(t2);
                                proof {
                                    self.lemma_child_in_range(t3 as int, p3i as int);
                                }
                                e2 = self.read_entry(t2, p2i);
                                if e2 & 1 == 1 {
                                    if (e2 >> 7) & 1 == 1 {
                                        return Err(MapError::Corrupt);
                                    }
                                    match self.lookup(e2 & 0x000f_ffff_ffff_f000) {
                                        None => {
                                            return Err(MapError::Corrupt);
                                        },
                                        Some(t1) => {
                                            t1o = Some(t1);
                                            proof {
                                                self.lemma_child_in_range(t2 as int, p2i as int);
                                            }
                                            e1 = self.read_entry(t1, p1i);
                                            if e1 & 1 == 1 {
                                                return Err(MapError::DoubleMap);
                                            }
                                        },
                                    }
                                }
                            },
                        }
                    }
                },
            }
        }
        proof {
            assert(!leaf_mapped(s0, v));
            assert(!walk_corrupt(s0, v));
        }

        // Obtain every frame a missing level will need, still changing
        // nothing, so that a refusal leaves the tables untouched.
        if self.lookup(f).is_some() {
            return Err(MapError::FrameCollision);
        }
        let need3 = t3o.is_none();
        let need2 = need3 || t2o.is_none();
        let need1 = need2 || t1o.is_none();
        let mut fa3: u64 = 0;
        let mut fa2: u64 = 0;
        let mut fa1: u64 = 0;
        let ghost mut last_pre = *allocator;
        let ghost mut draw3_post = *allocator;
        let ghost mut draw2_pre = *allocator;
        let ghost mut draw2_post = *allocator;
        if need3 {
            match self.alloc_table_frame(allocator, f) {
                Ok(fa) => {
                    fa3 = fa;
                    proof {
                        draw3_post = *allocator;
                        lemma_reach_after_draw(alloc0, alloc0, draw3_post, 0);
                        lemma_reach_mono(alloc0, draw3_post, 1, 2);
                    }
                },
                Err(e) => {
                    proof {
                        lemma_collision_witness(s0, alloc0, alloc0, *allocator, f, e);
                    }
                    return Err(e);
                },
            }
        }
        if need2 {
            proof {
                last_pre = *allocator;
                draw2_pre = *allocator;
                assert(draws_reach(alloc0, last_pre, 2));
            }
            match self.alloc_table_frame(allocator, f) {
                Ok(fa) => {
                    fa2 = fa;
                    proof {
                        draw2_post = *allocator;
                        if need3 {
                            lemma_reach_after_draw(alloc0, draw2_pre, draw2_post, 1);
                        } else {
                            lemma_reach_after_draw(alloc0, draw2_pre, draw2_post, 0);
                            lemma_reach_mono(alloc0, draw2_post, 1, 2);
                        }
                    }
                },
                Err(e) => {
                    proof {
                        lemma_collision_witness(s0, alloc0, last_pre, *allocator, f, e);
                    }
                    return Err(e);
                },
            }
            if need3 && fa2 == fa3 {
                proof {
                    let fr1 = choose|fr: PhysicalFrame|
                        #[trigger] allocate_frames_post(alloc0, draw3_post, 4096, Some(fr))
                            && fr.start_address.0 == fa3;
                    lemma_draw_changes(alloc0, draw3_post, fr1);
                    lemma_repeat_witness(alloc0, alloc0, draw3_post, draw2_pre, draw2_post, fa3);
                }
                return Err(MapError::FrameCollision);
            }
        }
        if need1 {
            proof {
                last_pre = *allocator;
                assert(draws_reach(alloc0, last_pre, 2));
            }
            match self.alloc_table_frame(allocator, f) {
                Ok(fa) => {
                    fa1 = fa;
                },
                Err(e) => {
                    proof {
                        lemma_collision_witness(s0, alloc0, last_pre, *allocator, f, e);
                    }
                    return Err(e);
                },
            }
            let ghost draw1_pre = last_pre;
            let ghost draw1_post = *allocator;
            if (need3 && fa1 == fa3) || (need2 && fa1 == fa2) {
                proof {
                    if need3 && fa1 == fa3 {
                        let fr1 = choose|fr: PhysicalFrame|
                            #[trigger] allocate_frames_post(alloc0, draw3_post, 4096, Some(fr))
                                && fr.start_address.0 == fa3;
                        let fr2 = choose|fr: PhysicalFrame|
                            #[trigger] allocate_frames_post(draw2_pre, draw2_post, 4096, Some(fr))
                                && fr.start_address.0 == fa2;
                        lemma_draw_monotone(alloc0, draw3_post, fr1);
                        lemma_draw_monotone(draw2_pre, draw2_post, fr2);
                        assert(!(alloc0 == draw1_pre));
                        lemma_repeat_witness(alloc0, alloc0, draw3_post, draw1_pre, draw1_post, fa3);
                    } else {
                        let fr2 = choose|fr: PhysicalFrame|
                            #[trigger] allocate_frames_post(draw2_pre, draw2_post, 4096, Some(fr))
                                && fr.start_address.0 == fa2;
                        lemma_draw_changes(draw2_pre, draw2_post, fr2);
                        lemma_repeat_witness(
                            alloc0,
                            draw2_pre,
                            draw2_post,
                            draw1_pre,
                            draw1_post,
                            fa2,
                        );
                    }
                }
                return Err(MapError::FrameCollision);
            }
        }

        // Install the path, top down. Every write leaves the store
        // well-formed: fresh tables are appended before the entry that
        // points at them is written.
        let cur3: usize;
        match t3o {
            Some(t3) => {
                proof {
                    crate::memory::paging::lemma_or_flags(e4, flags);
                    self.lemma_child_in_range(t4 as int, p4i as int);
                }
                self.write_entry_wf(t4, p4i, e4 | flags);
                proof {
                    lemma_lookup_frames(*self, s0);
                }
                cur3 = t3;
            },
            None => {
                self.append_table(fa3);
                let ghost mid_fa3 = *self;
                proof {
                    lemma_fresh_entry(flags, fa3);
                }
                self.write_entry_wf(t4, p4i, flags | fa3);
                proof {
                    lemma_lookup_frames(*self, mid_fa3);
                }
                cur3 = self.frames.len() - 1;
            },
        }
        let ghost s1 = *self;
        let ghost w4 = entry_at(*self, t4 as int, p4i as int);
        proof {
            assert(lookup_spec(s1, f) == -1);
            assert(need2 ==> lookup_spec(s1, fa2) == -1);
            assert(need1 ==> lookup_spec(s1, fa1) == -1);
        }
        let cur2: usize;
        match t2o {
            Some(t2) => {
                proof {
                    crate::memory::paging::lemma_or_flags(e3, flags);
                    s0.lemma_child_in_range(t3o.unwrap() as int, p3i as int);
                }
                self.write_entry_wf(cur3, p3i, e3 | flags);
                proof {
                    lemma_lookup_frames(*self, s1);
                }
                cur2 = t2;
            },
            None => {
                self.append_table(fa2);
                let ghost mid_fa2 = *self;
                proof {
                    lemma_fresh_entry(flags, fa2);
                }
                self.write_entry_wf(cur3, p3i, flags | fa2);
                proof {
                    lemma_lookup_frames(*self, mid_fa2);
                }
                cur2 = self.frames.len() - 1;
            },
        }
        let ghost s2 = *self;
        let ghost w3 = entry_at(*self, cur3 as int, p3i as int);
        proof {
            assert(lookup_spec(s2, f) == -1);
            assert(need1 ==> lookup_spec(s2, fa1) == -1);
            assert(lookup_spec(s2, spec_entry_addr(w4)) == cur3);
        }
        let cur1: usize;
        match t1o {
            Some(t1) => {
                proof {
                    crate::memory::paging::lemma_or_flags(e2, flags);
                    s0.lemma_child_in_range(t2o.unwrap() as int, p2i as int);
                }
                self.write_entry_wf(cur2, p2i, e2 | flags);
                proof {
                    lemma_lookup_frames(*self, s2);
                }
                cur1 = t1;
            },
            None => {
                self.append_table(fa1);
                let ghost mid_fa1 = *self;
                proof {
                    lemma_fresh_entry(flags, fa1);
                }
                self.write_entry_wf(cur2, p2i, flags | fa1);
                proof {
                    lemma_lookup_frames(*self, mid_fa1);
                }
                cur1 = self.frames.len() - 1;
            },
        }
        let ghost s3 = *self;
        let ghost w2 = entry_at(*self, cur2 as int, p2i as int);
        proof {
            lemma_fresh_entry(flags, f);
            assert(lookup_spec(s3, f) == -1);
            assert(lookup_spec(s3, spec_entry_addr(w4)) == cur3);
            assert(lookup_spec(s3, spec_entry_addr(w3)) == cur2);
        }
        self.write_entry_wf(cur1, p1i, flags | f);
        proof {
            lemma_lookup_frames(*self, s3);
        }

        proof {
            let post = *self;
            assert forall|off: u64|
                off < 4096 implies #[trigger] translate_spec(post, (v + off) as u64) == Some(
                (f + off) as u64,
            ) by {
                lemma_aligned_offsets(v, off);
                let w = (v + off) as u64;
                assert(lookup_spec(post, post.root_frame) == t4);
                assert(entry_at(post, t4 as int, spec_p4_index(w) as int) == w4);
                assert(spec_entry_present(w4) && !spec_entry_huge(w4));
                assert(lookup_spec(post, spec_entry_addr(w4)) == cur3);
                assert(entry_at(post, cur3 as int, spec_p3_index(w) as int) == w3);
                assert(spec_entry_present(w3) && !spec_entry_huge(w3));
                assert(lookup_spec(post, spec_entry_addr(w3)) == cur2);
                assert(entry_at(post, cur2 as int, spec_p2_index(w) as int) == w2);
                assert(spec_entry_present(w2) && !spec_entry_huge(w2));
                assert(lookup_spec(post, spec_entry_addr(w2)) == cur1);
                let wl = entry_at(post, cur1 as int, spec_p1_index(w) as int);
                assert(wl == (flags | f));
                assert(spec_entry_present(wl) && spec_entry_addr(wl) == f);
                assert(translate_spec(post, w) == Some((f + (w & 0xfff)) as u64));
            }
            assert(spec_walk_entries(*self, v) == (w4, w3, w2, (flags | f)));
        }
        Ok(())
    }

    /// Removes the mapping of `page`: the walk stops at the first absent
    /// entry, and a present leaf or huge entry is cleared to zero at its
    /// level.
    #[verifier::rlimit(100)]
    pub fn unmap_page(&mut self, page: Page)
        requires
            old(self).wf(),
            page.start_address.0 % 4096 == 0,
        ensures
            final(self).wf(),
            final(self).physical_memory_offset == old(self).physical_memory_offset,
            final(self).root_frame == old(self).root_frame,
            final(self).frames == old(self).frames,
            forall|off: u64|
                off < 4096 ==> #[trigger] translate_spec(
                    *final(self),
                    (page.start_address.0 + off) as u64,
                ) == None::<u64>,
            forall|off: u64|
                off < 4096 ==> !#[trigger] leaf_mapped(
                    *final(self),
                    (page.start_address.0 + off) as u64,
                ),
            forall|off: u64|
                off < 4096 && #[trigger] walk_corrupt(
                    *final(self),
                    (page.start_address.0 + off) as u64,
                ) ==> walk_corrupt(*old(self), (page.start_address.0 + off) as u64),
    {
        let ghost s0 = *self;
        let v = page.start_address.0;
        let p4i = page.p4_index();
        let p3i = page.p3_index();
        let p2i = page.p2_index();
        let p1i = page.p1_index();
        let t4: usize = match self.lookup(self.root_frame) {
            Some(t) => t,
            None => {
                proof {
                    assert(false);
                }
                0
            },
        };
        let e4 = self.read_entry(t4, p4i);
        if e4 & 1 != 1 {
            proof {
                lemma_unmap_offsets(v);
            }
            return ;
        }
        if (e4 >> 7) & 1 == 1 {
            proof {
                crate::memory::paging::lemma_zero_entry();
            }
            self.write_entry_wf(t4, p4i, 0);
            proof {
                lemma_unmap_offsets(v);
            }
            return ;
        }
        let t3: usize = match self.lookup(e4 & 0x000f_ffff_ffff_f000) {
            Some(t) => t,
            None => {
                proof {
                    lemma_unmap_offsets(v);
                }
                return ;
            },
        };
        proof {
            self.lemma_child_in_range(t4 as int, p4i as int);
        }
        let e3 = self.read_entry(t3, p3i);
        if e3 & 1 != 1 {
            proof {
                lemma_unmap_offsets(v);
            }
            return ;
        }
        if (e3 >> 7) & 1 == 1 {
            proof {
                crate::memory::paging::lemma_zero_entry();
            }
            self.write_entry_wf(t3, p3i, 0);
            proof {
                lemma_unmap_offsets(v);
            }
            return ;
        }
        let t2: usize = match self.lookup(e3 & 0x000f_ffff_ffff_f000) {
            Some(t) => t,
            None => {
                proof {
                    lemma_unmap_offsets(v);
                }
                return ;
            },
        };
        proof {
            self.lemma_child_in_range(t3 as int, p3i as int);
        }
        let e2 = self.read_entry(t2, p2i);
        if e2 & 1 != 1 {
            proof {
                lemma_unmap_offsets(v);
            }
            return ;
        }
        if (e2 >> 7) & 1 == 1 {
            proof {
                crate::memory::paging::lemma_zero_entry();
            }
            self.write_entry_wf(t2, p2i, 0);
            proof {
                lemma_unmap_offsets(v);
            }
            return ;
        }
        let t1: usize = match self.lookup(e2 & 0x000f_ffff_ffff_f000) {
            Some(t) => t,
            None => {
                proof {
                    lemma_unmap_offsets(v);
                }
                return ;
            },
        };
        proof {
            self.lemma_child_in_range(t2 as int, p2i as int);
        }
        proof {
            crate::memory::paging::lemma_zero_entry();
        }
        self.write_entry_wf(t1, p1i, 0);
        proof {
            lemma_unmap_offsets(v);
        }
    }

    /// A non-negative child index stays inside the table list.
    proof fn lemma_child_in_range(&self, ti: int, idx: int)
        requires
            self.wf(),
            0 <= ti < self.frames@.len(),
            0 <= idx < 512,
            child_spec(*self, ti, idx) >= 0,
        ensures
            0 <= child_spec(*self, ti, idx) < self.frames@.len(),
            ti < child_spec(*self, ti, idx),
    {
    }
}

/// The masked offsets of huge and 4 KiB mappings fit below the next
/// power of two.
pub proof fn lemma_huge_offsets(v: u64)
    by (bit_vector)
    ensures
        v & 0x3fff_ffff < 0x4000_0000,
        v & 0x1f_ffff < 0x20_0000,
        v & 0xfff < 0x1000,
{
}



/// Mappers with the same frame list resolve every lookup alike.
proof fn lemma_lookup_frames(a: MemoryMapper, b: MemoryMapper)
    requires
        a.frames == b.frames,
    ensures
        forall|x: u64| #[trigger] lookup_spec(a, x) == lookup_spec(b, x),
        forall|x: u64| lookup_spec(a, x) == #[trigger] lookup_spec(b, x),
{
    assert forall|x: u64| lookup_spec(a, x) == #[trigger] lookup_spec(b, x) by {
        assert(a.frames@ == b.frames@);
    }
    assert forall|x: u64| #[trigger] lookup_spec(a, x) == lookup_spec(b, x) by {
        assert(a.frames@ == b.frames@);
    }
}

/// Distinct table slots have distinct flat indices.
proof fn lemma_flat_index_distinct(t1: int, i1: int, t2: int, i2: int)
    by (nonlinear_arith)
    requires
        0 <= i1 < 512,
        0 <= i2 < 512,
        !(t1 == t2 && i1 == i2),
    ensures
        t1 * 512 + i1 != t2 * 512 + i2,
{
}

/// Every address of an aligned page shares the page's table indices.
proof fn lemma_unmap_offsets(base: u64)
    requires
        base % 4096 == 0,
    ensures
        forall|off: u64|
            off < 4096 ==> (#[trigger] spec_p4_index((base + off) as u64)) == spec_p4_index(base)
                && spec_p3_index((base + off) as u64) == spec_p3_index(base) && spec_p2_index(
                (base + off) as u64,
            ) == spec_p2_index(base) && spec_p1_index((base + off) as u64) == spec_p1_index(base),
{
    assert forall|off: u64| off < 4096 implies (#[trigger] spec_p4_index((base + off) as u64))
        == spec_p4_index(base) && spec_p3_index((base + off) as u64) == spec_p3_index(base)
        && spec_p2_index((base + off) as u64) == spec_p2_index(base) && spec_p1_index(
        (base + off) as u64,
    ) == spec_p1_index(base) by {
        lemma_aligned_offsets(base, off);
    }
}

/// A fresh entry made of low flag bits and an aligned table address.
pub proof fn lemma_fresh_entry(flags: u64, c: u64)
    by (bit_vector)
    requires
        flags < 8,
        flags & 1 == 1,
        c % 4096 == 0,
        c <= 0x000f_ffff_ffff_f000,
    ensures
        spec_entry_present(flags | c),
        !spec_entry_huge(flags | c),
        spec_entry_addr(flags | c) == c,
        spec_entry_writable(flags | c) == (flags & 2 == 2),
        spec_entry_user(flags | c) == (flags & 4 == 4),
{
}

/// The four entries the 4-level walk for `v` visits, zeros where the
/// path breaks off.
pub open spec fn spec_walk_entries(s: MemoryMapper, v: u64) -> (u64, u64, u64, u64) {
    let t4 = lookup_spec(s, s.root_frame);
    if t4 == -1 {
        (0, 0, 0, 0)
    } else {
        let e4 = entry_at(s, t4, spec_p4_index(v) as int);
        if !spec_entry_present(e4) || spec_entry_huge(e4) || lookup_spec(s, spec_entry_addr(e4))
            == -1 {
            (e4, 0, 0, 0)
        } else {
            let t3 = lookup_spec(s, spec_entry_addr(e4));
            let e3 = entry_at(s, t3, spec_p3_index(v) as int);
            if !spec_entry_present(e3) || spec_entry_huge(e3) || lookup_spec(
                s,
                spec_entry_addr(e3),
            ) == -1 {
                (e4, e3, 0, 0)
            } else {
                let t2 = lookup_spec(s, spec_entry_addr(e3));
                let e2 = entry_at(s, t2, spec_p2_index(v) as int);
                if !spec_entry_present(e2) || spec_entry_huge(e2) || lookup_spec(
                    s,
                    spec_entry_addr(e2),
                ) == -1 {
                    (e4, e3, e2, 0)
                } else {
                    let t1 = lookup_spec(s, spec_entry_addr(e2));
                    (e4, e3, e2, entry_at(s, t1, spec_p1_index(v) as int))
                }
            }
        }
    }
}

/// Whether `fr` cannot serve as a fresh page-table frame of `s`:
/// unaligned, beyond the entry address field, the page's own frame, or
/// already a modelled table.
pub open spec fn table_frame_unusable(s: MemoryMapper, fr: PhysicalFrame, avoid: u64) -> bool {
    ||| fr.start_address.0 % 4096 != 0
    ||| fr.start_address.0 > 0x000f_ffff_ffff_f000
    ||| fr.start_address.0 == avoid
    ||| lookup_spec(s, fr.start_address.0) >= 0
}

/// One successful draw always changes the allocator: the free list
/// shrinks or the cursor moves.
pub proof fn lemma_draw_changes(a0: FrameAllocator, a1: FrameAllocator, fr: PhysicalFrame)
    requires
        allocate_frames_post(a0, a1, 4096, Some(fr)),
    ensures
        a0 != a1,
{
    if a0.reusable_frames@.len() >= 1 && tail_contiguous(a0.reusable_frames@, 1) {
        assert(a1.reusable_frames@.len() != a0.reusable_frames@.len());
    } else {
        assert(a1.next == a0.next + 1);
    }
}

/// The allocator state `a1` is what drawing at most `k` single frames
/// from `a0` leaves behind; each draw is pinned by
/// `allocate_frames_post`, so the chain is deterministic in `a0`.
pub open spec fn draws_reach(a0: FrameAllocator, a1: FrameAllocator, k: nat) -> bool
    decreases k,
{
    a0 == a1 || (k > 0 && exists|mid: FrameAllocator, fr: PhysicalFrame|
        #[trigger] allocate_frames_post(a0, mid, 4096, Some(fr)) && draws_reach(
            mid,
            a1,
            (k - 1) as nat,
        ))
}

/// An aligned base below the top of the address space leaves room for a
/// full page, and adding a page offset changes no table index.
pub proof fn lemma_aligned_offsets(base: u64, off: u64)
    by (bit_vector)
    requires
        base % 4096 == 0,
        off < 4096,
    ensures
        base + off <= u64::MAX,
        spec_p4_index((base + off) as u64) == spec_p4_index(base),
        spec_p3_index((base + off) as u64) == spec_p3_index(base),
        spec_p2_index((base + off) as u64) == spec_p2_index(base),
        spec_p1_index((base + off) as u64) == spec_p1_index(base),
        ((base + off) as u64) & 0xfff == off,
        ((base + off) as u64) & 0x1f_ffff == (base & 0x1f_ffff) + off,
        ((base + off) as u64) & 0x3fff_ffff == (base & 0x3fff_ffff) + off,
{
}


/// A draw never grows the free list and never moves the cursor back,
/// and changes at least one of the two.
proof fn lemma_draw_monotone(a1: FrameAllocator, a2: FrameAllocator, fr: PhysicalFrame)
    requires
        allocate_frames_post(a1, a2, 4096, Some(fr)),
    ensures
        a2.reusable_frames@.len() <= a1.reusable_frames@.len(),
        a2.next >= a1.next,
        a2.reusable_frames@.len() < a1.reusable_frames@.len() || a2.next > a1.next,
{
}

/// Monotonicity along a whole chain of draws.
proof fn lemma_reach_monotone(a0: FrameAllocator, a1: FrameAllocator, k: nat)
    requires
        draws_reach(a0, a1, k),
    ensures
        a1.reusable_frames@.len() <= a0.reusable_frames@.len(),
        a1.next >= a0.next,
    decreases k,
{
    if a0 == a1 {
    } else {
        let (mid, fr) = choose|mid: FrameAllocator, fr: PhysicalFrame|
            #[trigger] allocate_frames_post(a0, mid, 4096, Some(fr)) && draws_reach(
                mid,
                a1,
                (k - 1) as nat,
            );
        lemma_draw_monotone(a0, mid, fr);
        lemma_reach_monotone(mid, a1, (k - 1) as nat);
    }
}

/// A deeper budget reaches whatever a shallower one reaches.
proof fn lemma_reach_mono(a0: FrameAllocator, a1: FrameAllocator, k1: nat, k2: nat)
    requires
        draws_reach(a0, a1, k1),
        k1 <= k2,
    ensures
        draws_reach(a0, a1, k2),
    decreases k1,
{
    if a0 == a1 {
    } else {
        let (mid, fr) = choose|mid: FrameAllocator, fr: PhysicalFrame|
            #[trigger] allocate_frames_post(a0, mid, 4096, Some(fr)) && draws_reach(
                mid,
                a1,
                (k1 - 1) as nat,
            );
        lemma_reach_mono(mid, a1, (k1 - 1) as nat, (k2 - 1) as nat);
    }
}

/// One more draw extends a chain by one step.
proof fn lemma_reach_after_draw(a0: FrameAllocator, a1: FrameAllocator, a2: FrameAllocator, k: nat)
    requires
        draws_reach(a0, a1, k),
        exists|fr: PhysicalFrame| #[trigger] allocate_frames_post(a1, a2, 4096, Some(fr)),
    ensures
        draws_reach(a0, a2, (k + 1) as nat),
    decreases k,
{
    let fr0 = choose|fr: PhysicalFrame| #[trigger] allocate_frames_post(a1, a2, 4096, Some(fr));
    if a0 == a1 {
        assert(draws_reach(a2, a2, k as nat));
        assert(allocate_frames_post(a0, a2, 4096, Some(fr0)));
    } else {
        let (mid, fr) = choose|mid: FrameAllocator, fr: PhysicalFrame|
            #[trigger] allocate_frames_post(a0, mid, 4096, Some(fr)) && draws_reach(
                mid,
                a1,
                (k - 1) as nat,
            );
        lemma_reach_after_draw(mid, a1, a2, (k - 1) as nat);
        assert(allocate_frames_post(a0, mid, 4096, Some(fr)) && draws_reach(mid, a2, k as nat));
    }
}

/// Propagates a fresh-frame failure into the shape `map_page` promises.
proof fn lemma_collision_witness(
    s: MemoryMapper,
    a0: FrameAllocator,
    pre: FrameAllocator,
    post: FrameAllocator,
    avoid: u64,
    e: MapError,
)
    requires
        draws_reach(a0, pre, 2),
        e == MapError::FrameCollision ==> exists|fr: PhysicalFrame|
            #[trigger] allocate_frames_post(pre, post, 4096, Some(fr)) && table_frame_unusable(
                s,
                fr,
                avoid,
            ),
    ensures
        e == MapError::FrameCollision ==> exists|a1: FrameAllocator, a2: FrameAllocator, fr: PhysicalFrame|
            draws_reach(a0, a1, 2) && #[trigger] allocate_frames_post(a1, a2, 4096, Some(fr)) && (
            table_frame_unusable(s, fr, avoid) || (exists|
                b1: FrameAllocator,
                b2: FrameAllocator,
                fr2: PhysicalFrame,
            |
                draws_reach(a0, b1, 2) && #[trigger] allocate_frames_post(b1, b2, 4096, Some(fr2))
                    && !(b1 == pre) && fr2.start_address.0 == fr.start_address.0)),
{
    if e == MapError::FrameCollision {
        let fr = choose|fr: PhysicalFrame|
            #[trigger] allocate_frames_post(pre, post, 4096, Some(fr)) && table_frame_unusable(
                s,
                fr,
                avoid,
            );
        assert(draws_reach(a0, pre, 2) && allocate_frames_post(pre, post, 4096, Some(fr))
            && table_frame_unusable(s, fr, avoid));
    }
}

/// Two distinct draws that yielded the same frame witness the repeat
/// branch of `map_page`'s collision promise.
proof fn lemma_repeat_witness(
    a0: FrameAllocator,
    p1: FrameAllocator,
    q1: FrameAllocator,
    p2: FrameAllocator,
    q2: FrameAllocator,
    x: u64,
)
    requires
        draws_reach(a0, p1, 2),
        draws_reach(a0, p2, 2),
        !(p1 == p2),
        exists|fr: PhysicalFrame|
            #[trigger] allocate_frames_post(p1, q1, 4096, Some(fr)) && fr.start_address.0 == x,
        exists|fr: PhysicalFrame|
            #[trigger] allocate_frames_post(p2, q2, 4096, Some(fr)) && fr.start_address.0 == x,
    ensures
        exists|a1: FrameAllocator, a2: FrameAllocator, fr: PhysicalFrame|
            draws_reach(a0, a1, 2) && #[trigger] allocate_frames_post(a1, a2, 4096, Some(fr))
                && (exists|b1: FrameAllocator, b2: FrameAllocator, fr2: PhysicalFrame|
                draws_reach(a0, b1, 2) && #[trigger] allocate_frames_post(b1, b2, 4096, Some(fr2))
                    && !(b1 == a1) && fr2.start_address.0 == fr.start_address.0),
{
    let fr_a = choose|fr: PhysicalFrame|
        #[trigger] allocate_frames_post(p2, q2, 4096, Some(fr)) && fr.start_address.0 == x;
    let fr_b = choose|fr: PhysicalFrame|
        #[trigger] allocate_frames_post(p1, q1, 4096, Some(fr)) && fr.start_address.0 == x;
    assert(draws_reach(a0, p2, 2) && allocate_frames_post(p2, q2, 4096, Some(fr_a)) && (
    draws_reach(a0, p1, 2) && allocate_frames_post(p1, q1, 4096, Some(fr_b)) && !(p1 == p2)
        && fr_b.start_address.0 == fr_a.start_address.0));
}

/// The first hit of a linear search does not move when the sequence is
/// extended, as long as the old range had a hit; and a miss turns into
/// the appended position.
pub proof fn lemma_find_from_push(frames: Seq<u64>, f: u64, g: u64, i: int)
    requires
        0 <= i <= frames.len(),
    ensures
        find_from(frames, f, i) != -1 ==> find_from(frames.push(g), f, i) == find_from(
            frames,
            f,
            i,
        ),
        find_from(frames, f, i) == -1 && f == g ==> find_from(frames.push(g), f, i)
            == frames.len(),
        find_from(frames, f, i) == -1 && f != g ==> find_from(frames.push(g), f, i) == -1,
    decreases frames.len() - i,
{
    if i < frames.len() {
        assert(frames.push(g)[i] == frames[i]);
        lemma_find_from_push(frames, f, g, i + 1);
    } else {
        assert(frames.push(g)[i] == g);
        assert(find_from(frames.push(g), f, i + 1) == -1);
    }
}

/// A successful search lands on a matching frame, and a search misses
/// exactly when no position from `i` on matches.
pub proof fn lemma_find_from_hit(frames: Seq<u64>, f: u64, i: int)
    requires
        0 <= i <= frames.len(),
    ensures
        find_from(frames, f, i) != -1 ==> i <= find_from(frames, f, i) < frames.len() && frames[
            find_from(frames, f, i)
        ] == f,
        find_from(frames, f, i) == -1 ==> forall|j: int| i <= j < frames.len() ==> frames[j] != f,
    decreases frames.len() - i,
{
    if i < frames.len() {
        lemma_find_from_hit(frames, f, i + 1);
    }
}


/// Translation commutes with page offsets: every address of a page goes
/// where the page's base goes, shifted by the same offset.
#[verifier::rlimit(100)]
pub proof fn lemma_translate_offset(s: MemoryMapper, base: u64, off: u64)
    requires
        base % 4096 == 0,
        off < 4096,
    ensures
        translate_spec(s, (base + off) as u64) == match translate_spec(s, base) {
            Some(p) => Some((p + off) as u64),
            None => None,
        },
{
    lemma_aligned_offsets(base, off);
    let w = (base + off) as u64;
    lemma_huge_offsets(base);
    lemma_huge_offsets(w);
    let t4 = lookup_spec(s, s.root_frame);
    if t4 != -1 {
        let e4 = entry_at(s, t4, spec_p4_index(base) as int);
        if spec_entry_present(e4) && !spec_entry_huge(e4) && lookup_spec(s, spec_entry_addr(e4))
            != -1 {
            let t3 = lookup_spec(s, spec_entry_addr(e4));
            let e3 = entry_at(s, t3, spec_p3_index(base) as int);
            crate::memory::paging::lemma_entry_addr_bounds(e3);
            if spec_entry_present(e3) && !spec_entry_huge(e3) && lookup_spec(
                s,
                spec_entry_addr(e3),
            ) != -1 {
                let t2 = lookup_spec(s, spec_entry_addr(e3));
                let e2 = entry_at(s, t2, spec_p2_index(base) as int);
                crate::memory::paging::lemma_entry_addr_bounds(e2);
                if spec_entry_present(e2) && !spec_entry_huge(e2) && lookup_spec(
                    s,
                    spec_entry_addr(e2),
                ) != -1 {
                    let t1 = lookup_spec(s, spec_entry_addr(e2));
                    let e1 = entry_at(s, t1, spec_p1_index(base) as int);
                    crate::memory::paging::lemma_entry_addr_bounds(e1);
                    assert(base & 0xfff == 0 && w & 0xfff == off) by (bit_vector)
                        requires
                            base % 4096 == 0,
                            off < 4096,
                            w == (base + off) as u64,
                    ;
                }
            }
        }
    }
}

/// A direct map translates every byte, not just every page base: when
/// each page of `[hhdm, hhdm + memory_size)` maps to its physical page,
/// every address in the window translates to itself minus the offset.
pub proof fn lemma_direct_map_round_trip(s: MemoryMapper, hhdm: u64, memory_size: u64)
    requires
        hhdm % 4096 == 0,
        hhdm + memory_size <= u64::MAX,
        forall|base: u64|
            base % 4096 == 0 && hhdm <= base < hhdm + memory_size ==> #[trigger] translate_spec(
                s,
                base,
            ) == Some((base - hhdm) as u64),
    ensures
        forall|v: u64|
            hhdm <= v < hhdm + memory_size ==> #[trigger] translate_spec(s, v) == Some(
                (v - hhdm) as u64,
            ),
{
    assert forall|v: u64| hhdm <= v < hhdm + memory_size implies #[trigger] translate_spec(s, v)
        == Some((v - hhdm) as u64) by {
        let base = (v / 4096 * 4096) as u64;
        let off = (v - base) as u64;
        assert(hhdm / 4096 * 4096 == hhdm);
        assert(hhdm / 4096 <= v / 4096);
        assert(base % 4096 == 0 && hhdm <= base < hhdm + memory_size);
        assert(translate_spec(s, base) == Some((base - hhdm) as u64));
        lemma_translate_offset(s, base, off);
    }
}

/// Remapping an unmapped page is never refused for the page's own state:
/// after an unmap of a walk that was not corrupt, a mapping attempt can
/// fail only for want of a clean intermediate frame.
pub proof fn lemma_remap_after_unmap(
    s1: MemoryMapper,
    s2: MemoryMapper,
    page: Page,
    r: Result<(), MapError>,
)
    requires
        page.start_address.0 % 4096 == 0,
        !walk_corrupt(s1, page.start_address.0),
        // what unmap_page left behind
        forall|off: u64|
            off < 4096 ==> !#[trigger] leaf_mapped(s2, (page.start_address.0 + off) as u64),
        forall|off: u64|
            off < 4096 && #[trigger] walk_corrupt(s2, (page.start_address.0 + off) as u64)
                ==> walk_corrupt(s1, (page.start_address.0 + off) as u64),
        // what the following map_page reported
        r == Err::<(), MapError>(MapError::DoubleMap) <==> leaf_mapped(s2, page.start_address.0),
        r == Err::<(), MapError>(MapError::Corrupt) <==> walk_corrupt(s2, page.start_address.0),
    ensures
        r != Err::<(), MapError>(MapError::DoubleMap),
        r != Err::<(), MapError>(MapError::Corrupt),
{
    assert(!leaf_mapped(s2, (page.start_address.0 + 0) as u64));
    if walk_corrupt(s2, page.start_address.0) {
        assert(walk_corrupt(s2, (page.start_address.0 + 0) as u64));
    }
}

} // verus!
