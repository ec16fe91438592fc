//! Physical and virtual memory management.

pub mod address;
pub mod frame;
pub mod frame_allocator;
pub mod linked_list_allocator;
pub mod mapper;
pub mod paging;

use vstd::prelude::*;

use crate::memory::frame_allocator::MemoryRegion;

verus! {

/// Sum of the lengths of the usable regions of a boot memory map.
pub open spec fn spec_available_memory(entries: Seq<MemoryRegion>) -> int
    decreases entries.len(),
{
    if entries.len() == 0 {
        0
    } else {
        spec_available_memory(entries.drop_last()) + if entries.last().is_usable() {
            entries.last().length as int
        } else {
            0
        }
    }
}

/// Total number of bytes the boot memory map marks usable.
pub fn calculate_available_memory(entries: &Vec<MemoryRegion>) -> (r: u64)
    requires
        spec_available_memory(entries@) <= u64::MAX,
    ensures
        r == spec_available_memory(entries@),
{
    let mut total: u64 = 0;
    let mut i: usize = 0;
    while i < entries.len()
        invariant
            i <= entries.len(),
            spec_available_memory(entries@) <= u64::MAX,
            total == spec_available_memory(entries@.take(i as int)),
        decreases entries.len() - i,
    {
        proof {
            lemma_available_memory_monotonic(entries@, i + 1);
            assert(entries@.take(i + 1).drop_last() =~= entries@.take(i as int));
        }
        if entries[i].is_usable_region() {
            total = total + entries[i].length;
        }
        i = i + 1;
    }
    proof {
        assert(entries@.take(entries@.len() as int) =~= entries@);
    }
    total
}

/// A prefix of the memory map never accounts for more usable bytes
/// than the whole map.
proof fn lemma_available_memory_monotonic(entries: Seq<MemoryRegion>, n: int)
    requires
        0 <= n <= entries.len(),
    ensures
        spec_available_memory(entries.take(n)) <= spec_available_memory(entries),
        spec_available_memory(entries.take(n)) >= 0,
    decreases entries.len(),
{
    if entries.len() == 0 {
    } else if n == entries.len() {
        assert(entries.take(n) =~= entries);
        lemma_available_memory_monotonic(entries.drop_last(), entries.len() - 1);
        assert(entries.drop_last().take(entries.len() - 1) =~= entries.drop_last());
    } else {
        lemma_available_memory_monotonic(entries.drop_last(), n);
        assert(entries.drop_last().take(n) =~= entries.take(n));
    }
}

} // verus!
