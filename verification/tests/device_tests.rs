//! Bitfields, PCI, NVMe, ACPI, descriptor tables, the ring buffer and
//! the syscall dispatcher.

use luix_kernel::acpi::madt::{Madt, MadtEntry};
use luix_kernel::acpi::rsdp::Rsdp;
use luix_kernel::acpi::rsdt::Rsdt;
use luix_kernel::acpi::sdt::{Sdt, MADT_SIGNATURE};
use luix_kernel::arch::apic::{Irq, IoApic, LocalApic};
use luix_kernel::arch::gdt;
use luix_kernel::arch::idt::{Entry, EntryOptions, InterruptDescriptorTable};
use luix_kernel::arch::{PrivilegeLevel, SegmentSelector};
use luix_kernel::bits::{get_bit_u64, get_bit_u8, get_bits_u32, get_bits_u64, set_bits_u32};
use luix_kernel::block::{BlockDevice, RamDisk};
use luix_kernel::memory::address::PhysicalAddress;
use luix_kernel::nvme::command::{
    parse_namespace_list, IdentifyController, IdentifyNamespace, NvmeAdminIdentifyCns,
    NvmeCommand, NvmeIoCommand,
};
use luix_kernel::nvme::controller::{Capabilities, CommandSetsSupported, ControllerConfiguration, NvmeController};
use luix_kernel::nvme::queue::{doorbell_offset, NvmeCompletion, Queue};
use luix_kernel::pci::{get_pci_address, PciDevice, PciDriver, PciScanner};
use luix_kernel::syscall::{dispatcher, SyscallAction, EXIT, PRINT_LINE, SPAWN};
use luix_kernel::utils::ring_buffer::RingBuffer;

#[test]
fn bitfield_reads() {
    assert_eq!(get_bits_u32(0b1010, 0, 1), 0);
    assert_eq!(get_bits_u32(0b1010, 1, 2), 1);
    assert_eq!(get_bits_u32(0b1010, 0, 3), 0b010);
    assert_eq!(get_bits_u32(0x10400, 16, 32), 0x1);
    assert_eq!(get_bits_u32(0x10400, 8, 16), 0x4);
    assert_eq!(get_bits_u64(0x4018200F0107FF, 0, 15), 2047);
    assert!(get_bit_u64(0x4018200F0107FF, 16));
    assert!(get_bit_u8(0b1010_0000, 7));
    assert!(!get_bit_u8(0b1010_0000, 0));
}

#[test]
fn bitfield_writes_round_trip() {
    let mut value = 0u32;
    value = set_bits_u32(value, 0, 2, 0b11);
    assert_eq!(value, 0b11);
    value = set_bits_u32(value, 2, 4, 0b11);
    assert_eq!(value, 0b1111);
    value = set_bits_u32(value, 0, 4, 0b1010);
    assert_eq!(value, 0b1010);
    // writing a field back to itself changes nothing and leaves the
    // outside alone
    let word = 0xDEAD_BEEFu32;
    let field = get_bits_u32(word, 4, 12);
    assert_eq!(set_bits_u32(word, 4, 12, field), word);
}

#[test]
fn pci_address_encoding() {
    assert_eq!(get_pci_address(0, 0, 0, 0), 0x8000_0000);
    assert_eq!(get_pci_address(1, 2, 3, 0x10), 0x8001_1310);
    // the low two offset bits are dropped
    assert_eq!(get_pci_address(0, 0, 0, 0x13), 0x8000_0010);
}

fn device_with_bars(bars: Vec<u32>) -> PciDevice {
    PciDevice {
        bus: 0,
        device: 1,
        function: 0,
        vendor_id: 0x8086,
        device_id: 0x1234,
        class_code: 0x01,
        subclass: 0x08,
        bars,
        header_type: 0,
    }
}

#[test]
fn bar_decoding() {
    // 32-bit memory BAR
    let dev = device_with_bars(vec![0xFEBF_0000, 0, 0, 0, 0, 0]);
    assert_eq!(dev.read_bar0_memory_address().unwrap().as_u64(), 0xFEBF_0000);
    // 64-bit memory BAR pair
    let dev = device_with_bars(vec![0xFEBF_0004, 0x1, 0, 0, 0, 0]);
    assert_eq!(
        dev.read_bar0_memory_address().unwrap().as_u64(),
        0x1_FEBF_0000
    );
    // I/O BAR carries no memory address
    let dev = device_with_bars(vec![0xFEBF_0001 | 0x2, 0, 0, 0, 0, 0]);
    assert!(dev.read_bar0_memory_address().is_none());
}

#[test]
fn scanner_skips_empty_slots_and_finds_storage() {
    let mut scanner = PciScanner::new();
    let mut ghost_dev = device_with_bars(vec![0; 6]);
    ghost_dev.vendor_id = 0xFFFF;
    assert!(!scanner.record_device(ghost_dev));
    let mut net = device_with_bars(vec![0; 6]);
    net.class_code = 0x02;
    assert!(scanner.record_device(net));
    let nvme = device_with_bars(vec![0; 6]);
    assert!(scanner.record_device(nvme));
    let driver = PciDriver { scanner };
    assert_eq!(driver.devices().len(), 2);
    let storage = driver.storage_devices();
    assert_eq!(storage, vec![1]);
}

#[test]
fn nvme_command_shapes() {
    let id = NvmeCommand::create_identify(0x1000, NvmeAdminIdentifyCns::IdentifyController, 0);
    assert_eq!(id.opcode, 0x06);
    assert_eq!(id.cdw10, 0x1);
    assert_eq!(id.dptr0, 0x1000);

    let cq = NvmeCommand::create_completion_queue(PhysicalAddress::new(0x2000), 1, 5);
    assert_eq!(cq.opcode, 0x05);
    assert_eq!(cq.cdw10, 1 | (5 << 16));
    assert_eq!(cq.cdw11, 1);

    let sq = NvmeCommand::create_submission_queue(PhysicalAddress::new(0x3000), 1, 5);
    assert_eq!(sq.opcode, 0x01);
    assert_eq!(sq.cdw10, 1 | (5 << 16));
    assert_eq!(sq.cdw11, 1 | (1 << 16));

    let read = NvmeCommand::create_read_write(
        NvmeIoCommand::Read,
        7,
        PhysicalAddress::new(0x4000),
        1024,
        512,
        1,
    );
    assert_eq!(read.opcode, 0x02);
    assert_eq!(read.cdw10, 7);
    assert_eq!(read.cdw12, 1); // two blocks, zero-based
    let write =
        NvmeCommand::create_read_write(NvmeIoCommand::Write, 7, PhysicalAddress::new(0), 1, 512, 1);
    assert_eq!(write.opcode, 0x01);
    assert_eq!(write.cdw12, 0);
}

#[test]
fn nvme_queue_cursors_and_phase() {
    let mut q = Queue::new(5, 0);
    let cmd = NvmeCommand::create_identify(0, NvmeAdminIdentifyCns::IdentifyController, 0);
    let (stamped, slot, doorbell) = q.submit_command(cmd);
    assert_eq!(stamped.command_id, 0);
    assert_eq!(slot, 0);
    assert_eq!(doorbell, 1);
    // wrapping the ring toggles the completion phase
    let mut cq = Queue::new(2, 0);
    assert!(cq.phase);
    assert_eq!(cq.advance_completion(), 1);
    assert!(cq.phase);
    assert_eq!(cq.advance_completion(), 0);
    assert!(!cq.phase);
}

#[test]
fn nvme_doorbell_stride() {
    assert_eq!(doorbell_offset(0, false, 0), 0);
    assert_eq!(doorbell_offset(0, true, 0), 4);
    assert_eq!(doorbell_offset(1, false, 0), 8);
    assert_eq!(doorbell_offset(1, true, 0), 12);
    // the stride exponent from CAP.DSTRD spreads the doorbells out
    assert_eq!(doorbell_offset(1, true, 2), 48);
}

#[test]
fn nvme_completion_decoding() {
    let mut bytes = vec![0u8; 16];
    bytes[12] = 3; // command id
    bytes[14] = 0x01; // phase set, status zero
    let c = NvmeCompletion::parse(&bytes);
    assert_eq!(c.command_id, 3);
    assert!(c.phase());
    assert!(c.is_success());
    bytes[14] = 0x03; // phase set, status nonzero
    let c = NvmeCompletion::parse(&bytes);
    assert!(!c.is_success());
    assert_eq!(c.status(), 1);
}

#[test]
fn nvme_identify_pages() {
    let mut page = vec![0u8; 4096];
    page[4..12].copy_from_slice(b"feedcafe");
    for b in page[12..24].iter_mut() {
        *b = 0x20;
    }
    page[516] = 1; // one namespace
    let identify = IdentifyController::parse(&page);
    assert_eq!(identify.number_of_namespaces, 1);
    // the serial number is non-empty once trimmed
    let serial = identify.serial_number.trimmed();
    assert_eq!(serial, b"feedcafe".to_vec());

    let mut ns_page = vec![0u8; 4096];
    ns_page[0] = 0x10; // nsze = 16 blocks
    ns_page[26] = 0; // format 0
    ns_page[128 + 2] = 9; // ds: 512-byte blocks
    let ns = IdentifyNamespace::parse(&ns_page).as_namespace(1).unwrap();
    assert_eq!(ns.namespace_id, 1);
    assert_eq!(ns.blocks, 16);
    assert_eq!(ns.block_size, 512);
    assert_eq!(ns.size, 16 * 512);
}

#[test]
fn nvme_controller_state() {
    let mut controller = NvmeController::new(PhysicalAddress::new(0xFEBF_0000), 0);
    assert_eq!(controller.admin_queue.queue_group_id, 0);
    assert_eq!(controller.io_queue.queue_group_id, 1);
    assert_eq!(controller.io_queue.queue_size, 5);
    assert_eq!(controller.admin_queue_attributes(), (4 << 16) | 4);
    assert!(controller
        .build_block_io(NvmeIoCommand::Read, 1, PhysicalAddress::new(0), 512)
        .is_none());
    let cap = Capabilities(0x22_0000_00FF);
    assert_eq!(cap.max_queue_entries(), 0x00FF);
    assert_eq!(cap.doorbell_stride(), 2);
    assert_eq!(cap.command_sets_supported(), Some(CommandSetsSupported::Nvm));
    let mut cc = ControllerConfiguration(0);
    cc.set_controller_command_set(CommandSetsSupported::Nvm);
    cc.set_arbitration_mechanism();
    cc.set_io_submission_queue_size(6);
    cc.set_io_completion_queue_size(4);
    cc.set_enabled(true);
    assert_eq!(cc.0, (6 << 16) | (4 << 20) | 1);
    assert!(cc.is_enabled());
}

#[test]
fn acpi_tables_decode() {
    // an RSDP pointing at an RSDT with one entry: a MADT
    let mut rsdp_bytes = vec![0u8; 20];
    rsdp_bytes[0..8].copy_from_slice(b"RSD PTR ");
    rsdp_bytes[16..20].copy_from_slice(&0x1000u32.to_le_bytes());
    let rsdp = Rsdp::parse(&rsdp_bytes);
    assert_eq!(rsdp.sdt_address(), 0x1000);

    let mut rsdt_bytes = vec![0u8; 40];
    rsdt_bytes[0..4].copy_from_slice(b"RSDT");
    rsdt_bytes[4..8].copy_from_slice(&40u32.to_le_bytes());
    rsdt_bytes[36..40].copy_from_slice(&0x2000u32.to_le_bytes());
    let rsdt = Rsdt::parse(&rsdt_bytes).unwrap();
    assert_eq!(rsdt.tables, vec![0x2000]);

    // one MADT with a Local APIC and an IO-APIC entry
    let mut madt_bytes = vec![0u8; 64];
    madt_bytes[0..4].copy_from_slice(b"APIC");
    madt_bytes[4..8].copy_from_slice(&64u32.to_le_bytes());
    madt_bytes[36..40].copy_from_slice(&0xFEE0_0000u32.to_le_bytes());
    // local apic entry: type 0, length 8, processor 1, apic id 2
    madt_bytes[44] = 0;
    madt_bytes[45] = 8;
    madt_bytes[46] = 1;
    madt_bytes[47] = 2;
    // io apic entry: type 1, length 12, id 3, address 0xFEC0_0000
    madt_bytes[52] = 1;
    madt_bytes[53] = 12;
    madt_bytes[54] = 3;
    madt_bytes[56..60].copy_from_slice(&0xFEC0_0000u32.to_le_bytes());
    let madt = Madt::parse(&madt_bytes).unwrap();
    assert_eq!(madt.local_apic_address, 0xFEE0_0000);
    let madt_header = Sdt::parse(&madt_bytes);
    assert!(madt_header.matches_signature(MADT_SIGNATURE));
    let headers = vec![madt_header];
    assert_eq!(rsdt.find_table(&headers, MADT_SIGNATURE), Some(0));

    let mut iter = madt.iter_entries();
    match iter.next(&madt).unwrap() {
        MadtEntry::LocalApic(e) => {
            assert_eq!(e.acpi_processor_id, 1);
            assert_eq!(e.apic_id, 2);
        }
        _ => panic!("expected a local apic entry"),
    }
    match iter.next(&madt).unwrap() {
        MadtEntry::IoApic(e) => {
            assert_eq!(e.io_apic_id, 3);
            assert_eq!(e.io_apic_address, 0xFEC0_0000);
        }
        _ => panic!("expected an io apic entry"),
    }
    assert!(iter.next(&madt).is_none());
}

#[test]
fn madt_zero_length_entry_ends_iteration() {
    let mut madt_bytes = vec![0u8; 52];
    madt_bytes[0..4].copy_from_slice(b"APIC");
    madt_bytes[4..8].copy_from_slice(&52u32.to_le_bytes());
    // an entry reporting length zero must not loop forever
    madt_bytes[44] = 9;
    madt_bytes[45] = 0;
    let madt = Madt::parse(&madt_bytes).unwrap();
    let mut iter = madt.iter_entries();
    assert!(iter.next(&madt).is_none());
}

#[test]
fn gdt_selectors() {
    let (built, selectors) = gdt::build(0x0000_1234_5678_9ABC);
    assert_eq!(built.next_free, 7);
    assert_eq!(selectors.kernel_code.as_raw(), 0x8);
    assert_eq!(selectors.kernel_data.as_raw(), 0x10);
    assert_eq!(selectors.user_data.as_raw(), 0x1B);
    assert_eq!(selectors.user_code.as_raw(), 0x23);
    assert_eq!(selectors.tss.as_raw(), 0x28);
    assert_eq!(
        SegmentSelector::new(5, PrivilegeLevel::Ring3).as_raw(),
        0x2B
    );
}

#[test]
fn tss_descriptor_address_fields() {
    let addr = 0x0000_1234_5678_9ABCu64;
    let low = luix_kernel::arch::gdt::GlobalDescriptorTable::tss_low_descriptor(addr);
    let high = luix_kernel::arch::gdt::GlobalDescriptorTable::tss_high_descriptor(addr);
    // limit 103, type 0b1001, present
    assert_eq!(low & 0xFFFF, 103);
    assert_eq!((low >> 40) & 0xF, 0b1001);
    assert_eq!((low >> 47) & 1, 1);
    // address bits split over base fields
    assert_eq!((low >> 16) & 0xFF_FFFF, 0x789ABC);
    assert_eq!((low >> 56) & 0xFF, 0x56);
    assert_eq!(high & 0xFFFF_FFFF, 0x1234);
}

#[test]
fn idt_gates() {
    let entry = Entry::new(0x1234_5678_9ABC_DEF0, 0x8);
    assert_eq!(entry.pointer_low, 0xDEF0);
    assert_eq!(entry.pointer_middle, 0x9ABC);
    assert_eq!(entry.pointer_high, 0x1234_5678);
    assert_eq!(entry.gdt_selector, 0x8);
    let opts = EntryOptions::new();
    assert_eq!(opts.0, (0b111 << 9) | (1 << 15));
    let mut idt = InterruptDescriptorTable::new();
    idt.set_page_fault_handler(0x1000, 0x8);
    assert_eq!(idt.entries[14].pointer_low, 0x1000);
    idt.set_handler(0x80, 0x2000, 0x8);
    assert_eq!(idt.entries[0x80].pointer_low, 0x2000);
}

#[test]
fn apic_programming_values() {
    let io = IoApic {
        io_apic_address: 0xFEC0_0000,
        io_apic_id: 1,
    };
    let writes = io.redirect(Irq::Keyboard, 0x21);
    assert_eq!(writes.len(), 3);
    assert_eq!(writes[0].reg, 0x12);
    assert_eq!(writes[0].value, 0x21 | (1 << 15));
    assert_eq!(writes[1].reg, 0x13);
    assert_eq!(writes[1].value, 1 << 24);
    assert_eq!(writes[2].reg, 0x12);
    assert_eq!(writes[2].value, 0x21);

    let lapic = LocalApic {
        local_apic_address: 0xFEE0_0000,
        acpi_processor_id: 0,
        apic_id: 0,
    };
    let init = lapic.init_writes();
    assert_eq!(init[1].reg, 0xF0);
    assert_eq!(init[1].value, 0x1FF);
    let lvt = lapic.enable_interrupt(0x20);
    assert_eq!(lvt.reg, 0x320);
    assert_eq!(lvt.value, (1 << 17) | 0x20);
    assert_eq!(lapic.end_of_interrupt().reg, 0xB0);
}

#[test]
fn ring_buffer_fifo() {
    let mut ring: RingBuffer<u32> = RingBuffer::new(3);
    ring.push(1);
    assert_eq!(ring.pop(), Some(1));
    ring.push(2);
    assert_eq!(ring.pop(), Some(2));
    ring.push(3);
    assert_eq!(ring.pop(), Some(3));
    ring.push(4);
    ring.push(5);
    assert_eq!(ring.pop(), Some(4));
    assert_eq!(ring.pop(), Some(5));
    assert_eq!(ring.pop(), None);
}

#[test]
fn ring_buffer_overwrites_oldest_when_full() {
    let mut ring: RingBuffer<u32> = RingBuffer::new(3);
    ring.push(1);
    ring.push(2);
    assert_eq!(ring.pop(), Some(1));
    assert_eq!(ring.pop(), Some(2));
    assert_eq!(ring.pop(), None);
    // more pushes than the ring holds: the newest survive, in order
    ring.push(3);
    ring.push(4);
    ring.push(5);
    ring.push(6);
    assert_eq!(ring.pop(), Some(5));
    assert_eq!(ring.pop(), Some(6));
    assert_eq!(ring.pop(), None);
}

#[test]
fn syscall_dispatch() {
    assert_eq!(
        dispatcher(SPAWN, 0x1000, 12),
        SyscallAction::Spawn {
            path_ptr: 0x1000,
            path_len: 12
        }
    );
    assert_eq!(dispatcher(EXIT, 0, 0), SyscallAction::Exit);
    assert_eq!(
        dispatcher(PRINT_LINE, 0x2000, 21),
        SyscallAction::PrintLine {
            ptr: 0x2000,
            len: 21
        }
    );
    assert_eq!(
        dispatcher(0x999, 1, 2),
        SyscallAction::Unknown { number: 0x999 }
    );
}

#[test]
fn ram_disk_write_then_read() {
    let mut disk = RamDisk::new(vec![0u8; 1024]);
    let data = b"EFI PART".to_vec();
    disk.write_block(1, &data);
    let mut readback = vec![0u8; 8];
    disk.read_block(1, &mut readback);
    assert_eq!(readback, data);
}

#[test]
fn nvme_active_namespace_list() {
    let mut page = vec![0u8; 4096];
    page[0..4].copy_from_slice(&1u32.to_le_bytes());
    page[8..12].copy_from_slice(&7u32.to_le_bytes());
    // the zero words between and after live ids are unused slots
    assert_eq!(parse_namespace_list(&page), vec![1, 7]);
    assert_eq!(parse_namespace_list(&vec![0u8; 4096]), Vec::<u32>::new());
}

#[test]
fn nvme_bring_up_register_values() {
    let controller = NvmeController::new(PhysicalAddress::new(0xFEBF_0000), 0);
    let (aqa, cc) = controller.init_register_values(CommandSetsSupported::Nvm);
    assert_eq!(aqa, (4 << 16) | 4);
    // css 0, round robin, 64-byte submission and 16-byte completion
    // entries, still disabled
    assert_eq!(cc, (6 << 16) | (4 << 20));
    assert_eq!(cc & 1, 0);
}

#[test]
fn idt_user_gate_carries_dpl_3() {
    let mut idt = InterruptDescriptorTable::new();
    idt.set_user_handler(0x80, 0x3000, 0x8);
    let gate = idt.entries[0x80];
    assert_eq!(gate.pointer_low, 0x3000);
    // bits 13..15 of the options word hold the privilege level
    assert_eq!((gate.options.0 >> 13) & 0b11, 3);
    assert_eq!((gate.options.0 >> 15) & 1, 1);
    // ordinary gates stay at DPL 0
    idt.set_handler(14, 0x4000, 0x8);
    assert_eq!((idt.entries[14].options.0 >> 13) & 0b11, 0);
    let mut opts = EntryOptions::new();
    opts.set_privilege_level(3);
    assert_eq!((opts.0 >> 13) & 0b11, 3);
}
