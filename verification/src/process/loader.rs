//! Loading an ELF64 image into a fresh user mapping.
//!
//! The page mapping is performed on the modelled tables; the byte
//! copies into the freshly mapped pages and the `iretq` into ring 3
//! happen outside, driven by the plan this module computes.

use vstd::prelude::*;

use crate::arch::gdt::Selectors;
use crate::arch::InterruptFrame;
use crate::memory::address::VirtualAddress;
use crate::memory::frame_allocator::FrameAllocator;
use crate::memory::mapper::{translate_spec, MapError, MemoryMapper};
use crate::memory::paging::Page;
use crate::process::elf::{ElfFile, ProgramHeader, ProgramHeaderType};

verus! {

/// Virtual base of a spawned process's code region.
pub const PROCESS_START: u64 = 0xF00D_C0DE_000;

/// Pages reserved for a process's image and stack.
pub const PROCESS_PAGES: u64 = 10;

/// One byte copy the loader asks for: segment bytes to a user virtual
/// address.
#[derive(Debug, Clone)]
pub struct CopyRegion {
    pub data: Vec<u8>,
    pub dest: u64,
}

/// Everything needed to enter the loaded program: where its code
/// lives, what to copy there, and the entry point.
pub struct SpawnPlan {
    pub code_addr: u64,
    pub code_size: u64,
    pub entry_point: u64,
    pub copies: Vec<CopyRegion>,
}

/// One planned copy carries segment `h`: its file bytes, placed at the
/// segment's address within the process region.
pub open spec fn copy_matches(c: CopyRegion, h: ProgramHeader, buffer: Seq<u8>) -> bool {
    &&& c.dest == PROCESS_START + h.p_vaddr
    &&& h.p_vaddr <= 0x8000_0000
    &&& c.data@ == buffer.subrange(h.p_offset as int, h.p_offset + h.p_filesz)
}

/// The program headers whose segments must be copied at load time, in
/// table order.
pub open spec fn spec_load_headers(phs: Seq<ProgramHeader>) -> Seq<ProgramHeader>
    decreases phs.len(),
{
    if phs.len() == 0 {
        Seq::empty()
    } else {
        spec_load_headers(phs.drop_last()) + if phs.last().p_type_raw == 1 {
            seq![phs.last()]
        } else {
            Seq::empty()
        }
    }
}

/// Maps the process region user-accessible and writable, one fresh
/// frame per page, and plans one copy per load segment. On success
/// every page of the region translates and the copies correspond
/// one-to-one, in order, to the `PT_LOAD` headers. `OutOfMemory` is
/// returned only when the allocator is genuinely exhausted; the other
/// errors come from the mapper's own refusals, from a load segment
/// placed beyond the region cap, or from one whose file bytes lie
/// outside the image.
pub fn spawn(
    elf_file: &ElfFile,
    mapper: &mut MemoryMapper,
    allocator: &mut FrameAllocator,
) -> (r: Result<SpawnPlan, MapError>)
    requires
        old(mapper).wf(),
        old(allocator).wf(),
        old(allocator).next + 0x100 <= u64::MAX,
        old(mapper).frames@.len() + 64 <= 0xf_fff0,
    ensures
        final(mapper).wf(),
        final(allocator).wf(),
        match r {
            Ok(plan) => {
                let loads = spec_load_headers(elf_file.program_headers@);
                &&& plan.code_addr == PROCESS_START
                &&& plan.code_size == PROCESS_PAGES * 4096
                &&& plan.entry_point == elf_file.e_entry
                &&& plan.copies@.len() == loads.len()
                &&& forall|k: int|
                    0 <= k < loads.len() ==> copy_matches(
                        #[trigger] plan.copies@[k],
                        loads[k],
                        elf_file.buffer@,
                    )
                &&& forall|p: u64|
                    p % 4096 == 0 && PROCESS_START <= p <= PROCESS_START + PROCESS_PAGES * 4096
                        ==> (#[trigger] translate_spec(*final(mapper), p)) is Some
            },
            Err(e) => e == MapError::OutOfMemory ==> final(allocator).reusable_frames@.len() == 0
                && final(allocator).next >= crate::memory::frame_allocator::usable_frames_seq(
                final(allocator).memory_map@,
            ).len(),
        },
{
    let code_size = PROCESS_PAGES * 4096;
    let code_addr = PROCESS_START;

    // map every page of the region to a fresh frame, user and writable
    let mut page_addr = code_addr;
    let end_addr = code_addr + code_size;
    while page_addr <= end_addr
        invariant
            mapper.wf(),
            allocator.wf(),
            code_addr == PROCESS_START,
            end_addr == PROCESS_START + PROCESS_PAGES * 4096,
            code_addr <= page_addr <= end_addr + 4096,
            page_addr % 4096 == 0,
            allocator.next + (end_addr - page_addr) / 4096 * 4 + 8 <= u64::MAX,
            mapper.frames@.len() + (end_addr - page_addr) / 4096 * 4 + 8 <= 0xf_fff0,
        decreases end_addr + 4096 - page_addr,
    {
        let page = Page::containing_address(VirtualAddress(page_addr));
        proof {
            assert(crate::memory::frame_allocator::tail_contiguous(
                allocator.reusable_frames@,
                1,
            ));
        }
        let frame = match allocator.allocate_frame() {
            Some(f) => f,
            None => {
                return Err(MapError::OutOfMemory);
            },
        };
        if frame.start_address.0 > 0x000f_ffff_ffff_f000 || frame.start_address.0 % 4096 != 0 {
            return Err(MapError::FrameCollision);
        }
        match mapper.map_page(page, frame, true, true, allocator) {
            Ok(()) => {},
            Err(e) => {
                return Err(e);
            },
        }
        page_addr = page_addr + 4096;
    }

    // every page of the region must now translate; refuse otherwise
    let mut check_addr = code_addr;
    while check_addr <= end_addr
        invariant
            mapper.wf(),
            allocator.wf(),
            code_addr == PROCESS_START,
            end_addr == PROCESS_START + PROCESS_PAGES * 4096,
            code_addr <= check_addr <= end_addr + 4096,
            check_addr % 4096 == 0,
            forall|p: u64|
                p % 4096 == 0 && code_addr <= p < check_addr ==> (#[trigger] translate_spec(
                    *mapper,
                    p,
                )) is Some,
        decreases end_addr + 4096 - check_addr,
    {
        if mapper.translate_addr(VirtualAddress(check_addr)).is_none() {
            return Err(MapError::Corrupt);
        }
        check_addr = check_addr + 4096;
    }
    proof {
        assert forall|p: u64|
            p % 4096 == 0 && code_addr <= p <= end_addr implies (#[trigger] translate_spec(
            *mapper,
            p,
        )) is Some by {}
    }

    // plan the copy of every load segment into the fresh region
    let ghost phs = elf_file.program_headers@;
    let mut copies: Vec<CopyRegion> = Vec::new();
    let n = elf_file.program_headers.len();
    let mut k: usize = 0;
    while k < n
        invariant
            mapper.wf(),
            allocator.wf(),
            phs == elf_file.program_headers@,
            n == phs.len(),
            0 <= k <= n,
            code_addr == PROCESS_START,
            copies@.len() == spec_load_headers(phs.take(k as int)).len(),
            forall|j: int|
                0 <= j < spec_load_headers(phs.take(k as int)).len() ==> copy_matches(
                    #[trigger] copies@[j],
                    spec_load_headers(phs.take(k as int))[j],
                    elf_file.buffer@,
                ),
        decreases n - k,
    {
        proof {
            assert(phs.take(k + 1).drop_last() =~= phs.take(k as int));
            assert(phs.take(k + 1).last() == phs[k as int]);
        }
        let header = &elf_file.program_headers[k];
        let is_load = header.p_type_raw == 1;
        if is_load {
            if header.p_vaddr > 0x8000_0000 {
                return Err(MapError::Corrupt);
            }
            let data = match elf_file.data(k) {
                Some(d) => d,
                None => {
                    return Err(MapError::Corrupt);
                },
            };
            let ghost copies0 = copies@;
            copies.push(CopyRegion { data, dest: code_addr + header.p_vaddr });
            proof {
                let loads0 = spec_load_headers(phs.take(k as int));
                let loads1 = spec_load_headers(phs.take(k + 1));
                assert(loads1 =~= loads0.push(phs[k as int]));
                assert forall|j: int|
                    0 <= j < loads1.len() implies copy_matches(
                    #[trigger] copies@[j],
                    loads1[j],
                    elf_file.buffer@,
                ) by {
                    if j < loads0.len() {
                        assert(loads1[j] == loads0[j]);
                        assert(copies@[j] == copies0[j]);
                    } else {
                        assert(loads1[j] == phs[k as int]);
                        assert(copies@[j] == copies@.last());
                    }
                }
            }
        } else {
            proof {
                assert(spec_load_headers(phs.take(k + 1)) =~= spec_load_headers(
                    phs.take(k as int),
                ));
            }
        }
        k = k + 1;
    }
    proof {
        assert(phs.take(n as int) =~= phs);
    }

    Ok(
        SpawnPlan {
            code_addr,
            code_size,
            entry_point: elf_file.entry_point(),
            copies,
        },
    )
}

/// The `iretq` frame that enters the loaded program in ring 3: user
/// stack at the top of the region, interrupts enabled, user code
/// segment, execution at the image's entry point.
pub fn user_entry_frame(selectors: &Selectors, plan: &SpawnPlan) -> (r: InterruptFrame)
    requires
        plan.code_addr + plan.code_size <= u64::MAX,
        plan.code_addr + plan.entry_point <= u64::MAX,
    ensures
        r.stack_segment == selectors.user_data.0,
        r.stack_pointer == plan.code_addr + plan.code_size,
        r.cpu_flags == 0x200,
        r.code_segment == selectors.user_code.0,
        r.instruction_pointer == plan.code_addr + plan.entry_point,
{
    InterruptFrame {
        instruction_pointer: plan.code_addr + plan.entry_point,
        code_segment: selectors.user_code.0 as u64,
        cpu_flags: 0x200,
        stack_pointer: plan.code_addr + plan.code_size,
        stack_segment: selectors.user_data.0 as u64,
    }
}

} // verus!
