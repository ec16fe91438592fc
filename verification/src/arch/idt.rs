//! The interrupt descriptor table: 256 16-byte gates.

use vstd::prelude::*;

verus! {

/// Flag word of an IDT gate.
#[derive(Debug, Clone, Copy, PartialEq, Eq, Structural)]
pub struct EntryOptions(pub u16);

impl EntryOptions {
    /// Only the mandatory type bits.
    pub fn minimal() -> (r: EntryOptions)
        ensures
            r.0 == 0b111u16 << 9,
    {
        EntryOptions(0b111u16 << 9)
    }

    /// The mandatory type bits plus present.
    pub fn new() -> (r: EntryOptions)
        ensures
            r.0 == (0b111u16 << 9) | (1u16 << 15),
    {
        let mut options = Self::minimal();
        options.set_present(true);
        proof {
            assert((0b111u16 << 9) | (1u16 << 15) == ((0b111u16 << 9) | ((true as u16) << 15)))
                by (bit_vector);
        }
        options
    }

    /// ORs the present bit in when `present` holds.
    pub fn set_present(&mut self, present: bool)
        ensures
            final(self).0 == old(self).0 | ((present as u16) << 15),
    {
        self.0 = self.0 | ((present as u16) << 15);
    }

    /// ORs the interrupts-stay-enabled bit in when `disable` does not
    /// hold.
    pub fn disable_interrupts(&mut self, disable: bool)
        ensures
            final(self).0 == old(self).0 | (((!disable) as u16) << 8),
    {
        self.0 = self.0 | (((!disable) as u16) << 8);
    }

    /// Writes the descriptor privilege level into bits 13..15 of the
    /// gate, naming the lowest ring allowed to enter it with a
    /// software interrupt.
    pub fn set_privilege_level(&mut self, level: u16)
        requires
            level < 4,
        ensures
            final(self).0 == (old(self).0 & !(0b11u16 << 13)) | (level << 13),
    {
        self.0 = (self.0 & !(0b11u16 << 13)) | (level << 13);
    }
}

/// One IDT gate, its handler address split over three fields.
#[derive(Debug, Clone, Copy, PartialEq, Eq, Structural)]
pub struct Entry {
    pub pointer_low: u16,
    pub gdt_selector: u16,
    pub options: EntryOptions,
    pub pointer_middle: u16,
    pub pointer_high: u32,
    pub reserved: u8,
}

impl Entry {
    /// A present gate for the handler at `handler_addr`, entered through
    /// the code segment `gdt_selector`.
    pub fn new(handler_addr: u64, gdt_selector: u16) -> (r: Entry)
        ensures
            r.pointer_low == handler_addr as u16,
            r.pointer_middle == (handler_addr >> 16) as u16,
            r.pointer_high == (handler_addr >> 32) as u32,
            r.gdt_selector == gdt_selector,
            r.options.0 == (0b111u16 << 9) | (1u16 << 15),
            r.reserved == 0,
    {
        Entry {
            pointer_low: handler_addr as u16,
            gdt_selector,
            options: EntryOptions::new(),
            pointer_middle: (handler_addr >> 16) as u16,
            pointer_high: (handler_addr >> 32) as u32,
            reserved: 0,
        }
    }

    /// The empty, non-present gate.
    pub fn default() -> (r: Entry)
        ensures
            r.pointer_low == 0 && r.pointer_middle == 0 && r.pointer_high == 0,
            r.gdt_selector == 0,
            r.options.0 == 0,
            r.reserved == 0,
    {
        Entry {
            pointer_low: 0,
            gdt_selector: 0,
            options: EntryOptions(0),
            pointer_middle: 0,
            pointer_high: 0,
            reserved: 0,
        }
    }
}

/// The operand of `lidt`: the table's byte size minus one and its
/// base address.
#[derive(Debug, Clone, Copy, PartialEq, Eq, Structural)]
pub struct InterruptDescriptorTablePointer {
    pub size: u16,
    pub base: u64,
}

/// The 256-gate interrupt descriptor table.
pub struct InterruptDescriptorTable {
    pub entries: Vec<Entry>,
}

impl InterruptDescriptorTable {
    pub open spec fn wf(&self) -> bool {
        self.entries@.len() == 256
    }

    /// A table of 256 empty gates.
    pub fn new() -> (r: InterruptDescriptorTable)
        ensures
            r.wf(),
            forall|i: int| 0 <= i < 256 ==> #[trigger] r.entries@[i] == Entry::spec_default(),
    {
        let mut entries: Vec<Entry> = Vec::new();
        let mut k: usize = 0;
        while k < 256
            invariant
                0 <= k <= 256,
                entries@.len() == k,
                forall|i: int| 0 <= i < k ==> #[trigger] entries@[i] == Entry::spec_default(),
            decreases 256 - k,
        {
            entries.push(Entry::default());
            k = k + 1;
        }
        InterruptDescriptorTable { entries }
    }

    /// The `lidt` operand for a table living at `base`: 256 gates of
    /// 16 bytes each.
    pub fn pointer(&self, base: u64) -> (r: InterruptDescriptorTablePointer)
        ensures
            r.size == 256 * 16 - 1,
            r.base == base,
    {
        InterruptDescriptorTablePointer { size: 256 * 16 - 1, base }
    }

    /// Installs the ring-3 reachable syscall gate at vector `index`:
    /// the same gate as `set_handler`, with descriptor privilege
    /// level 3 so `int` from user mode may enter it.
    pub fn set_user_handler(&mut self, index: usize, handler_addr: u64, gdt_selector: u16)
        requires
            old(self).wf(),
            index < 256,
        ensures
            final(self).wf(),
            final(self).entries@ == old(self).entries@.update(
                index as int,
                Entry {
                    pointer_low: handler_addr as u16,
                    gdt_selector,
                    options: EntryOptions(
                        (((0b111u16 << 9) | (1u16 << 15)) & !(0b11u16 << 13)) | (3u16 << 13),
                    ),
                    pointer_middle: (handler_addr >> 16) as u16,
                    pointer_high: (handler_addr >> 32) as u32,
                    reserved: 0,
                },
            ),
    {
        let mut options = EntryOptions::new();
        options.set_privilege_level(3);
        self.entries.set(
            index,
            Entry {
                pointer_low: handler_addr as u16,
                gdt_selector,
                options,
                pointer_middle: (handler_addr >> 16) as u16,
                pointer_high: (handler_addr >> 32) as u32,
                reserved: 0,
            },
        );
    }

    /// Installs a handler gate at vector `index`.
    pub fn set_handler(&mut self, index: usize, handler_addr: u64, gdt_selector: u16)
        requires
            old(self).wf(),
            index < 256,
        ensures
            final(self).wf(),
            final(self).entries@ == old(self).entries@.update(
                index as int,
                Entry {
                    pointer_low: handler_addr as u16,
                    gdt_selector,
                    options: EntryOptions((0b111u16 << 9) | (1u16 << 15)),
                    pointer_middle: (handler_addr >> 16) as u16,
                    pointer_high: (handler_addr >> 32) as u32,
                    reserved: 0,
                },
            ),
    {
        self.entries.set(index, Entry::new(handler_addr, gdt_selector));
    }

    /// Vector 0: divide error.
    pub fn set_division_error_handler(&mut self, handler_addr: u64, gdt_selector: u16)
        requires
            old(self).wf(),
        ensures
            final(self).wf(),
            final(self).entries@ == old(self).entries@.update(
                0,
                Entry::spec_gate(handler_addr, gdt_selector),
            ),
    {
        self.set_handler(0, handler_addr, gdt_selector);
    }

    /// Vector 4: overflow.
    pub fn set_overflow_handler(&mut self, handler_addr: u64, gdt_selector: u16)
        requires
            old(self).wf(),
        ensures
            final(self).wf(),
            final(self).entries@ == old(self).entries@.update(
                4,
                Entry::spec_gate(handler_addr, gdt_selector),
            ),
    {
        self.set_handler(4, handler_addr, gdt_selector);
    }

    /// Vector 6: invalid opcode.
    pub fn set_invalid_opcode_handler(&mut self, handler_addr: u64, gdt_selector: u16)
        requires
            old(self).wf(),
        ensures
            final(self).wf(),
            final(self).entries@ == old(self).entries@.update(
                6,
                Entry::spec_gate(handler_addr, gdt_selector),
            ),
    {
        self.set_handler(6, handler_addr, gdt_selector);
    }

    /// Vector 8: double fault.
    pub fn set_double_fault_handler(&mut self, handler_addr: u64, gdt_selector: u16)
        requires
            old(self).wf(),
        ensures
            final(self).wf(),
            final(self).entries@ == old(self).entries@.update(
                8,
                Entry::spec_gate(handler_addr, gdt_selector),
            ),
    {
        self.set_handler(8, handler_addr, gdt_selector);
    }

    /// Vector 12: stack-segment fault.
    pub fn set_stack_segment_fault_handler(&mut self, handler_addr: u64, gdt_selector: u16)
        requires
            old(self).wf(),
        ensures
            final(self).wf(),
            final(self).entries@ == old(self).entries@.update(
                12,
                Entry::spec_gate(handler_addr, gdt_selector),
            ),
    {
        self.set_handler(12, handler_addr, gdt_selector);
    }

    /// Vector 13: general protection fault.
    pub fn set_general_protection_fault_handler(&mut self, handler_addr: u64, gdt_selector: u16)
        requires
            old(self).wf(),
        ensures
            final(self).wf(),
            final(self).entries@ == old(self).entries@.update(
                13,
                Entry::spec_gate(handler_addr, gdt_selector),
            ),
    {
        self.set_handler(13, handler_addr, gdt_selector);
    }

    /// Vector 14: page fault.
    pub fn set_page_fault_handler(&mut self, handler_addr: u64, gdt_selector: u16)
        requires
            old(self).wf(),
        ensures
            final(self).wf(),
            final(self).entries@ == old(self).entries@.update(
                14,
                Entry::spec_gate(handler_addr, gdt_selector),
            ),
    {
        self.set_handler(14, handler_addr, gdt_selector);
    }
}

impl Entry {
    /// What `default` builds.
    pub open spec fn spec_default() -> Entry {
        Entry {
            pointer_low: 0,
            gdt_selector: 0,
            options: EntryOptions(0),
            pointer_middle: 0,
            pointer_high: 0,
            reserved: 0,
        }
    }

    /// What `new` builds.
    pub open spec fn spec_gate(handler_addr: u64, gdt_selector: u16) -> Entry {
        Entry {
            pointer_low: handler_addr as u16,
            gdt_selector,
            options: EntryOptions((0b111u16 << 9) | (1u16 << 15)),
            pointer_middle: (handler_addr >> 16) as u16,
            pointer_high: (handler_addr >> 32) as u32,
            reserved: 0,
        }
    }
}

} // verus!
