//! The global descriptor table, its segment descriptors and the TSS.

use vstd::prelude::*;

use crate::arch::{PrivilegeLevel, SegmentSelector};
use crate::bits::{
    get_bits_u64, set_bits_u64, spec_get_bits_u64, spec_set_bits_u64,
};
use crate::memory::address::VirtualAddress;

verus! {

/// Bytes of the kernel stack used on privilege-level transitions.
pub const STACK_SIZE: usize = 8192;

/// Descriptor bits every segment shares: present, descriptor type,
/// readable/writable and accessed.
pub const DEFAULT_DESCRIPTOR: u64 = (1u64 << 44) | (1u64 << 47) | (1u64 << 41) | (1u64 << 40);

/// The 64-bit task state segment, with its size as `iomap_base`.
#[derive(Debug, Clone)]
pub struct TaskStateSegment {
    pub privilege_stack_table: Vec<VirtualAddress>,
    pub interrupt_stack_table: Vec<VirtualAddress>,
    pub iomap_base: u16,
}

impl TaskStateSegment {
    /// A TSS whose ring-0 transition stack tops out at `stack_top`.
    pub fn new(stack_top: VirtualAddress) -> (r: TaskStateSegment)
        ensures
            r.privilege_stack_table@.len() == 3,
            r.privilege_stack_table@[0] == stack_top,
            r.privilege_stack_table@[1].0 == 0 && r.privilege_stack_table@[2].0 == 0,
            r.interrupt_stack_table@.len() == 7,
            forall|i: int| 0 <= i < 7 ==> (#[trigger] r.interrupt_stack_table@[i]).0 == 0,
            r.iomap_base == 104,
    {
        let mut privilege_stack_table: Vec<VirtualAddress> = Vec::new();
        privilege_stack_table.push(stack_top);
        privilege_stack_table.push(VirtualAddress(0));
        privilege_stack_table.push(VirtualAddress(0));
        let mut interrupt_stack_table: Vec<VirtualAddress> = Vec::new();
        let mut k: usize = 0;
        while k < 7
            invariant
                0 <= k <= 7,
                interrupt_stack_table@.len() == k,
                forall|i: int| 0 <= i < k ==> (#[trigger] interrupt_stack_table@[i]).0 == 0,
            decreases 7 - k,
        {
            interrupt_stack_table.push(VirtualAddress(0));
            k = k + 1;
        }
        // the 64-bit TSS is 104 bytes; an iomap base equal to its size
        // means no I/O permission bitmap
        TaskStateSegment { privilege_stack_table, interrupt_stack_table, iomap_base: 104 }
    }
}

/// The fixed 8-slot GDT under construction.
#[derive(Debug, Clone)]
pub struct GlobalDescriptorTable {
    pub table: Vec<u64>,
    pub next_free: usize,
}

impl GlobalDescriptorTable {
    /// Slot zero stays the null descriptor and the cursor stays inside
    /// the table.
    pub open spec fn wf(&self) -> bool {
        &&& self.table@.len() == 8
        &&& 1 <= self.next_free <= 8
        &&& self.table@[0] == 0
    }

    /// An empty table: eight null slots, the first left permanently
    /// null.
    pub fn new() -> (r: GlobalDescriptorTable)
        ensures
            r.wf(),
            r.next_free == 1,
            forall|i: int| 0 <= i < 8 ==> #[trigger] r.table@[i] == 0,
    {
        let mut table: Vec<u64> = Vec::new();
        let mut k: usize = 0;
        while k < 8
            invariant
                0 <= k <= 8,
                table@.len() == k,
                forall|i: int| 0 <= i < k ==> #[trigger] table@[i] == 0,
            decreases 8 - k,
        {
            table.push(0);
            k = k + 1;
        }
        GlobalDescriptorTable { table, next_free: 1 }
    }

    /// Installs `descriptor` in the next free slot and returns its
    /// selector. `None` when the table is full.
    pub fn add_entry(&mut self, descriptor: u64, privilege_level: PrivilegeLevel) -> (r: Option<
        SegmentSelector,
    >)
        requires
            old(self).wf(),
        ensures
            final(self).wf(),
            if old(self).next_free < 8 {
                &&& r == Some(
                    SegmentSelector(
                        (old(self).next_free * 8 + privilege_level.spec_value()) as u16,
                    ),
                )
                &&& final(self).table@ == old(self).table@.update(
                    old(self).next_free as int,
                    descriptor,
                )
                &&& final(self).next_free == old(self).next_free + 1
            } else {
                r == None::<SegmentSelector> && *final(self) == *old(self)
            },
    {
        if self.next_free >= 8 {
            return None;
        }
        let index = self.next_free;
        self.table.set(index, descriptor);
        self.next_free = index + 1;
        Some(SegmentSelector::new(index as u16, privilege_level))
    }

    /// Installs the kernel code segment: executable, long mode.
    pub fn add_kernel_code_entry(&mut self) -> (r: Option<SegmentSelector>)
        requires
            old(self).wf(),
        ensures
            final(self).wf(),
            if old(self).next_free < 8 {
                &&& r == Some(SegmentSelector((old(self).next_free * 8) as u16))
                &&& final(self).table@ == old(self).table@.update(
                    old(self).next_free as int,
                    DEFAULT_DESCRIPTOR | (1u64 << 43) | (1u64 << 53),
                )
                &&& final(self).next_free == old(self).next_free + 1
            } else {
                r == None::<SegmentSelector> && *final(self) == *old(self)
            },
    {
        let descriptor = DEFAULT_DESCRIPTOR | (1u64 << 43) | (1u64 << 53);
        self.add_entry(descriptor, PrivilegeLevel::Ring0)
    }

    /// Installs the kernel data segment.
    pub fn add_kernel_data_entry(&mut self) -> (r: Option<SegmentSelector>)
        requires
            old(self).wf(),
        ensures
            final(self).wf(),
            if old(self).next_free < 8 {
                &&& r == Some(SegmentSelector((old(self).next_free * 8) as u16))
                &&& final(self).table@ == old(self).table@.update(
                    old(self).next_free as int,
                    DEFAULT_DESCRIPTOR | (1u64 << 54),
                )
                &&& final(self).next_free == old(self).next_free + 1
            } else {
                r == None::<SegmentSelector> && *final(self) == *old(self)
            },
    {
        let descriptor = DEFAULT_DESCRIPTOR | (1u64 << 54);
        self.add_entry(descriptor, PrivilegeLevel::Ring0)
    }

    /// Installs the user code segment: DPL 3.
    pub fn add_user_code_entry(&mut self) -> (r: Option<SegmentSelector>)
        requires
            old(self).wf(),
        ensures
            final(self).wf(),
            if old(self).next_free < 8 {
                &&& r == Some(SegmentSelector((old(self).next_free * 8 + 3) as u16))
                &&& final(self).table@ == old(self).table@.update(
                    old(self).next_free as int,
                    DEFAULT_DESCRIPTOR | (1u64 << 43) | (1u64 << 53) | (3u64 << 45),
                )
                &&& final(self).next_free == old(self).next_free + 1
            } else {
                r == None::<SegmentSelector> && *final(self) == *old(self)
            },
    {
        let descriptor = DEFAULT_DESCRIPTOR | (1u64 << 43) | (1u64 << 53) | (3u64 << 45);
        self.add_entry(descriptor, PrivilegeLevel::Ring3)
    }

    /// Installs the user data segment: DPL 3.
    pub fn add_user_data_entry(&mut self) -> (r: Option<SegmentSelector>)
        requires
            old(self).wf(),
        ensures
            final(self).wf(),
            if old(self).next_free < 8 {
                &&& r == Some(SegmentSelector((old(self).next_free * 8 + 3) as u16))
                &&& final(self).table@ == old(self).table@.update(
                    old(self).next_free as int,
                    DEFAULT_DESCRIPTOR | (1u64 << 54) | (3u64 << 45),
                )
                &&& final(self).next_free == old(self).next_free + 1
            } else {
                r == None::<SegmentSelector> && *final(self) == *old(self)
            },
    {
        let descriptor = DEFAULT_DESCRIPTOR | (1u64 << 54) | (3u64 << 45);
        self.add_entry(descriptor, PrivilegeLevel::Ring3)
    }

    /// The low quadword of a 16-byte TSS descriptor for a TSS at
    /// `tss_addr`: present bit, type 0b1001, a 103-byte limit and the
    /// low 32 address bits split over their fields.
    pub fn tss_low_descriptor(tss_addr: u64) -> (r: u64)
        ensures
            r == spec_set_bits_u64(
                spec_set_bits_u64(
                    spec_set_bits_u64(
                        spec_set_bits_u64(1u64 << 47, 16, 40, spec_get_bits_u64(tss_addr, 0, 24)),
                        56,
                        64,
                        spec_get_bits_u64(tss_addr, 24, 32),
                    ),
                    0,
                    16,
                    103,
                ),
                40,
                44,
                0b1001,
            ),
    {
        proof {
            crate::bits::lemma_get_bits_u64_fits(tss_addr, 0, 24);
            crate::bits::lemma_get_bits_u64_fits(tss_addr, 24, 32);
            lemma_tss_fields(tss_addr);
        }
        let low = 1u64 << 47;
        let low = set_bits_u64(low, 16, 40, get_bits_u64(tss_addr, 0, 24));
        let low = set_bits_u64(low, 56, 64, get_bits_u64(tss_addr, 24, 32));
        let low = set_bits_u64(low, 0, 16, 103);
        set_bits_u64(low, 40, 44, 0b1001)
    }

    /// The high quadword: the high 32 address bits.
    pub fn tss_high_descriptor(tss_addr: u64) -> (r: u64)
        ensures
            r == spec_set_bits_u64(0, 0, 32, spec_get_bits_u64(tss_addr, 32, 64)),
    {
        proof {
            lemma_tss_fields(tss_addr);
        }
        set_bits_u64(0, 0, 32, get_bits_u64(tss_addr, 32, 64))
    }

    /// Installs the two-slot TSS descriptor and returns the selector of
    /// its first slot. `None` when fewer than two slots remain.
    pub fn add_tss_entry(&mut self, tss_addr: u64) -> (r: Option<SegmentSelector>)
        requires
            old(self).wf(),
        ensures
            final(self).wf(),
            if old(self).next_free < 7 {
                &&& r == Some(SegmentSelector((old(self).next_free * 8) as u16))
                &&& final(self).next_free == old(self).next_free + 2
            } else {
                r == None::<SegmentSelector> && *final(self) == *old(self)
            },
    {
        if self.next_free >= 7 {
            return None;
        }
        let low = Self::tss_low_descriptor(tss_addr);
        let high = Self::tss_high_descriptor(tss_addr);
        let segment = self.add_entry(low, PrivilegeLevel::Ring0);
        self.add_entry(high, PrivilegeLevel::Ring0);
        segment
    }
}

/// The extracted TSS address fields obey the field-width preconditions
/// of the descriptor writes.
proof fn lemma_tss_fields(tss_addr: u64)
    by (bit_vector)
    ensures
        spec_get_bits_u64(tss_addr, 0, 24) << ((64 - (40u64 - 16)) as u64) >> ((64 - (40u64
            - 16)) as u64) == spec_get_bits_u64(tss_addr, 0, 24),
        spec_get_bits_u64(tss_addr, 24, 32) << ((64 - (64u64 - 56)) as u64) >> ((64 - (64u64
            - 56)) as u64) == spec_get_bits_u64(tss_addr, 24, 32),
        103u64 << ((64 - (16u64 - 0)) as u64) >> ((64 - (16u64 - 0)) as u64) == 103,
        9u64 << ((64 - (44u64 - 40)) as u64) >> ((64 - (44u64 - 40)) as u64) == 9,
        spec_get_bits_u64(tss_addr, 32, 64) << ((64 - (32u64 - 0)) as u64) >> ((64 - (32u64
            - 0)) as u64) == spec_get_bits_u64(tss_addr, 32, 64),
{
}

/// The selectors the GDT build hands the rest of the kernel.
#[derive(Debug, Clone, Copy, PartialEq, Eq, Structural)]
pub struct Selectors {
    pub kernel_code: SegmentSelector,
    pub kernel_data: SegmentSelector,
    pub user_code: SegmentSelector,
    pub user_data: SegmentSelector,
    pub tss: SegmentSelector,
}

/// Builds the kernel's GDT: null, kernel code, kernel data, user data,
/// user code, and the two TSS slots, yielding the classic selector
/// values.
pub fn build(tss_addr: u64) -> (r: (GlobalDescriptorTable, Selectors))
    ensures
        r.0.wf(),
        r.0.next_free == 7,
        r.1.kernel_code.0 == 0x08,
        r.1.kernel_data.0 == 0x10,
        r.1.user_data.0 == 0x1B,
        r.1.user_code.0 == 0x23,
        r.1.tss.0 == 0x28,
{
    let mut gdt = GlobalDescriptorTable::new();
    let kernel_code = match gdt.add_kernel_code_entry() {
        Some(s) => s,
        None => {
            proof {
                assert(false);
            }
            SegmentSelector(0)
        },
    };
    let kernel_data = match gdt.add_kernel_data_entry() {
        Some(s) => s,
        None => {
            proof {
                assert(false);
            }
            SegmentSelector(0)
        },
    };
    let user_data = match gdt.add_user_data_entry() {
        Some(s) => s,
        None => {
            proof {
                assert(false);
            }
            SegmentSelector(0)
        },
    };
    let user_code = match gdt.add_user_code_entry() {
        Some(s) => s,
        None => {
            proof {
                assert(false);
            }
            SegmentSelector(0)
        },
    };
    let tss = match gdt.add_tss_entry(tss_addr) {
        Some(s) => s,
        None => {
            proof {
                assert(false);
            }
            SegmentSelector(0)
        },
    };
    let selectors = Selectors { kernel_code, kernel_data, user_code, user_data, tss };
    (gdt, selectors)
}

} // verus!
