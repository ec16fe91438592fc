//! Memory subsystem behaviour: addresses, frames, paging, the frame
//! allocator, the heap and the mapper.

use luix_kernel::memory::address::{PhysicalAddress, VirtualAddress};
use luix_kernel::memory::frame::PhysicalFrame;
use luix_kernel::memory::frame_allocator::{FrameAllocator, MemoryRegion};
use luix_kernel::memory::linked_list_allocator::LinkedListAllocator;
use luix_kernel::memory::mapper::MemoryMapper;
use luix_kernel::memory::paging::{Page, PageTableEntry};
use luix_kernel::memory::calculate_available_memory;
use luix_kernel::process::elf::ElfFile;
use luix_kernel::process::loader;

#[test]
fn virtual_address_fields() {
    let addr = VirtualAddress::new(0xDEAD_BEEF);
    assert_eq!(addr.as_u64(), 0xDEAD_BEEF);
    assert_eq!(addr.page_offset(), 0xEEF);
    assert_eq!(addr.p1_index(), 0xDB);
    assert_eq!(addr.p2_index(), 0xF5);
    assert_eq!(addr.p3_index(), 0x3);
    assert_eq!(addr.p4_index(), 0x0);
    assert_eq!(addr.align_down(0x1000).as_u64(), 0xDEAD_B000);
    assert_eq!(addr.offset(0x1).as_u64(), 0xDEAD_BEF0);
}

#[test]
fn physical_address_fields() {
    let addr = PhysicalAddress::new(0xDEAD_BEEF);
    assert_eq!(addr.as_u64(), 0xDEAD_BEEF);
    assert_eq!(addr.align_down(0x1000).as_u64(), 0xDEAD_B000);
    assert_eq!(addr.offset(0x32).as_u64(), 0xDEAD_BF21);
}

#[test]
fn frame_containing_address() {
    let frame = PhysicalFrame::containing_address(PhysicalAddress::new(0x1999));
    assert_eq!(frame.start_address.as_u64(), 0x1000);
    assert_eq!(PhysicalFrame::size(), 4096);
}

#[test]
fn frame_range_inclusive() {
    let start = PhysicalFrame::containing_address(PhysicalAddress::new(0x1000));
    let end = PhysicalFrame::containing_address(PhysicalAddress::new(0x3200));
    let mut iter = PhysicalFrame::range_inclusive(start, end);
    let mut frames = Vec::new();
    while let Some(f) = iter.next() {
        frames.push(f.start_address.as_u64());
    }
    assert_eq!(frames, vec![0x1000, 0x2000, 0x3000]);
}

#[test]
fn page_iter_and_indices() {
    let page = Page::containing_address(VirtualAddress::new(0xDEAD_BEEF));
    assert_eq!(page.p1_index(), 0xDB);
    assert_eq!(page.p2_index(), 0xF5);
    assert_eq!(page.p3_index(), 0x3);
    assert_eq!(page.p4_index(), 0x0);
    let start = Page::containing_address(VirtualAddress::new(0x1000));
    let end = Page::containing_address(VirtualAddress::new(0x3005));
    let mut iter = Page::range_inclusive(start, end);
    let mut count = 0;
    while let Some(_) = iter.next() {
        count += 1;
    }
    assert_eq!(count, 3);
}

#[test]
fn page_table_entry_flags() {
    let mut entry = PageTableEntry::new();
    assert!(entry.is_unused());
    assert!(!entry.present());
    assert!(!entry.writable());
    assert!(!entry.huge_page());
    entry.set_present();
    assert!(entry.present());
    entry.set_writable();
    assert!(entry.writable());
    entry.set_user_accessible();
    assert!(entry.user_accessible());
    entry.set_frame(PhysicalFrame {
        start_address: PhysicalAddress::new(0x5000),
    });
    assert_eq!(entry.physical_address().unwrap().as_u64(), 0x5000);
    assert!(entry.present());
    entry.set_unused();
    assert!(entry.is_unused());
}

fn region(base: u64, length: u64, entry_type: u64) -> MemoryRegion {
    MemoryRegion {
        base,
        length,
        entry_type,
    }
}

#[test]
fn available_memory_counts_usable_only() {
    // a machine with 128 MiB of usable memory
    let entries = vec![
        region(0x0, 0x8000000, 0),
        region(0x8000000, 0x100000, 1),
    ];
    assert_eq!(calculate_available_memory(&entries), 128 * 1024 * 1024);
}

#[test]
fn frame_allocator_hands_out_usable_frames() {
    let mut alloc = FrameAllocator::new(vec![
        region(0x100000, 0x4000, 0),
        region(0x500000, 0x2000, 0),
    ]);
    assert_eq!(
        alloc.allocate_frame().unwrap().start_address.as_u64(),
        0x100000
    );
    assert_eq!(
        alloc.allocate_frame().unwrap().start_address.as_u64(),
        0x101000
    );
    // the cursor runs across region boundaries
    alloc.allocate_frame();
    alloc.allocate_frame();
    assert_eq!(
        alloc.allocate_frame().unwrap().start_address.as_u64(),
        0x500000
    );
    assert_eq!(
        alloc.allocate_frame().unwrap().start_address.as_u64(),
        0x501000
    );
    assert!(alloc.allocate_frame().is_none());
}

#[test]
fn deallocate_then_allocate_returns_same_frame() {
    let mut alloc = FrameAllocator::new(vec![region(0x100000, 0x10000, 0)]);
    let first = alloc.allocate_frames(8192).unwrap();
    assert_eq!(first.start_address.as_u64(), 0x100000);
    alloc.deallocate_frames(first.start_address, 8192);
    let again = alloc.allocate_frames(8192).unwrap();
    assert_eq!(again.start_address.as_u64(), 0x100000);
}

#[test]
fn heap_first_fit_and_tail_tracking() {
    let mut heap = LinkedListAllocator::new();
    heap.init(0x1000, 2048);
    let (s, a) = heap.align_with_block_size(1024, 1);
    assert_eq!(heap.alloc_block(s, a), Some(0x1000));
    let (s, a) = heap.align_with_block_size(256, 1);
    assert_eq!(heap.alloc_block(s, a), Some(0x1400));
    let (s, a) = heap.align_with_block_size(128, 1);
    assert_eq!(heap.alloc_block(s, a), Some(0x1500));
    let (s, a) = heap.align_with_block_size(64, 1);
    assert_eq!(heap.alloc_block(s, a), Some(0x1580));
    // only the tail remains
    assert_eq!(heap.blocks.len(), 1);
    assert_eq!(heap.blocks[0].start_addr(), 0x15C0);
}

#[test]
fn heap_free_block_is_reused() {
    // fill the heap, free one block, and the same layout lands inside it
    let mut heap = LinkedListAllocator::new();
    heap.init(0x1000, 1024);
    let a = heap.alloc_block(256, 8).unwrap();
    let b = heap.alloc_block(256, 8).unwrap();
    let c = heap.alloc_block(256, 8).unwrap();
    let d = heap.alloc_block(256, 8).unwrap();
    assert_eq!((a, b, c, d), (0x1000, 0x1100, 0x1200, 0x1300));
    heap.dealloc_block(b, 256);
    let again = heap.alloc_block(256, 8).unwrap();
    assert!(b <= again && again + 256 <= b + 256);
}

#[test]
fn heap_freeing_everything_coalesces() {
    let mut heap = LinkedListAllocator::new();
    heap.init(0x1000, 2048);
    let a = heap.alloc_block(512, 8).unwrap();
    let b = heap.alloc_block(256, 8).unwrap();
    let c = heap.alloc_block(256, 8).unwrap();
    heap.dealloc_block(b, 256);
    heap.dealloc_block(a, 512);
    heap.dealloc_block(c, 256);
    // everything free again: one region equal to the initial heap
    assert_eq!(heap.blocks.len(), 1);
    assert_eq!(heap.blocks[0].start_addr(), 0x1000);
    assert_eq!(heap.blocks[0].end_addr(), 0x1000 + 2048);
}

#[test]
fn mapper_map_translate_unmap_remap() {
    let mut alloc = FrameAllocator::new(vec![region(0x200000, 0x100000, 0)]);
    let mut mapper = MemoryMapper::new(VirtualAddress::new(0xFFFF_8000_0000_0000), 0x1000);

    let virt = VirtualAddress::new(0xFEED_DEAD_1000);
    assert!(mapper.translate_addr(virt).is_none());

    let page = Page::containing_address(virt);
    let frame = alloc.allocate_frame().unwrap();
    mapper
        .map_page(page, frame, false, false, &mut alloc)
        .unwrap();

    // the page translates to the mapped frame, offsets preserved
    assert_eq!(
        mapper.translate_addr(virt).unwrap().as_u64(),
        frame.start_address.as_u64()
    );
    assert_eq!(
        mapper
            .translate_addr(VirtualAddress::new(0xFEED_DEAD_1042))
            .unwrap()
            .as_u64(),
        frame.start_address.as_u64() + 0x42
    );

    // unmapping makes it untranslatable again
    mapper.unmap_page(page);
    assert!(mapper.translate_addr(virt).is_none());

    // and remapping succeeds
    let frame2 = alloc.allocate_frame().unwrap();
    mapper
        .map_page(page, frame2, false, false, &mut alloc)
        .unwrap();
    assert_eq!(
        mapper.translate_addr(virt).unwrap().as_u64(),
        frame2.start_address.as_u64()
    );
}

#[test]
fn mapper_direct_map_window() {
    // map one page of a direct map at the higher-half offset and read
    // through it
    let hhdm = 0xFFFF_8000_0000_0000u64;
    let mut alloc = FrameAllocator::new(vec![region(0x300000, 0x100000, 0)]);
    let mut mapper = MemoryMapper::new(VirtualAddress::new(hhdm), 0x1000);
    let page = Page::containing_address(VirtualAddress::new(hhdm));
    let frame = PhysicalFrame {
        start_address: PhysicalAddress::new(0),
    };
    mapper
        .map_page(page, frame, false, true, &mut alloc)
        .unwrap();
    let phys = mapper
        .translate_addr(VirtualAddress::new(hhdm + 0x42))
        .unwrap();
    assert_eq!(phys.as_u64(), 0x42);
}

#[test]
fn mapper_double_map_refused() {
    let mut alloc = FrameAllocator::new(vec![region(0x400000, 0x100000, 0)]);
    let mut mapper = MemoryMapper::new(VirtualAddress::new(0xFFFF_8000_0000_0000), 0x1000);
    let page = Page::containing_address(VirtualAddress::new(0xFEED_0000_0000));
    let frame = alloc.allocate_frame().unwrap();
    mapper
        .map_page(page, frame, false, false, &mut alloc)
        .unwrap();
    let frame2 = alloc.allocate_frame().unwrap();
    assert!(mapper
        .map_page(page, frame2, false, false, &mut alloc)
        .is_err());
}

#[test]
fn spawn_plans_load_segments() {
    // a minimal ELF64 image with one load segment
    let mut image = vec![0u8; 64 + 56 + 16];
    image[0..4].copy_from_slice(&[0x7F, 0x45, 0x4C, 0x46]);
    image[24..32].copy_from_slice(&0x40u64.to_le_bytes()); // entry
    image[32..40].copy_from_slice(&64u64.to_le_bytes()); // phoff
    image[56..58].copy_from_slice(&1u16.to_le_bytes()); // phnum
    // the program header: PT_LOAD, file bytes at 120, vaddr 0, 16 bytes
    image[64..68].copy_from_slice(&1u32.to_le_bytes());
    image[72..80].copy_from_slice(&120u64.to_le_bytes());
    image[80..88].copy_from_slice(&0u64.to_le_bytes());
    image[96..104].copy_from_slice(&16u64.to_le_bytes());
    image[120..124].copy_from_slice(b"code");

    let elf = ElfFile::parse(image).unwrap();
    assert_eq!(elf.entry_point(), 0x40);
    assert_eq!(elf.program_headers.len(), 1);

    let mut alloc = FrameAllocator::new(vec![region(0x100000, 0x100000, 0)]);
    let mut mapper = MemoryMapper::new(VirtualAddress::new(0xFFFF_8000_0000_0000), 0x1000);
    let plan = loader::spawn(&elf, &mut mapper, &mut alloc).unwrap();
    assert_eq!(plan.code_addr, loader::PROCESS_START);
    assert_eq!(plan.code_size, 10 * 4096);
    assert_eq!(plan.entry_point, 0x40);
    assert_eq!(plan.copies.len(), 1);
    assert_eq!(plan.copies[0].dest, loader::PROCESS_START);
    assert_eq!(&plan.copies[0].data[0..4], b"code");
    // every page of the region is mapped afterwards
    let phys = mapper
        .translate_addr(VirtualAddress::new(loader::PROCESS_START))
        .unwrap();
    assert!(phys.as_u64() >= 0x100000);

    let (_gdt, selectors) = luix_kernel::arch::gdt::build(0x1000);
    let frame = loader::user_entry_frame(&selectors, &plan);
    assert_eq!(frame.cpu_flags, 0x200);
    assert_eq!(frame.code_segment, 0x23);
    assert_eq!(frame.stack_segment, 0x1B);
    assert_eq!(frame.instruction_pointer, loader::PROCESS_START + 0x40);
}
