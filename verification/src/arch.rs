//! x86_64 descriptor tables, interrupt plumbing values and APIC
//! programming.

pub mod apic;
pub mod gdt;
pub mod idt;

use vstd::prelude::*;

verus! {

/// A requested privilege level of a segment selector.
#[derive(Debug, Clone, Copy, PartialEq, Eq, Structural)]
pub enum PrivilegeLevel {
    Ring0,
    Ring3,
}

impl PrivilegeLevel {
    /// The two RPL bits.
    pub open spec fn spec_value(&self) -> u16 {
        match self {
            PrivilegeLevel::Ring0 => 0,
            PrivilegeLevel::Ring3 => 3,
        }
    }

    pub fn value(&self) -> (r: u16)
        ensures
            r == self.spec_value(),
    {
        match self {
            PrivilegeLevel::Ring0 => 0,
            PrivilegeLevel::Ring3 => 3,
        }
    }
}

/// A segment selector: a GDT index with its requested privilege level.
#[derive(Debug, Clone, Copy, PartialEq, Eq, Structural)]
pub struct SegmentSelector(pub u16);

impl SegmentSelector {
    /// Selector of GDT slot `index` at privilege `rpl`.
    pub fn new(index: u16, rpl: PrivilegeLevel) -> (r: SegmentSelector)
        requires
            index < 0x2000,
        ensures
            r.0 == (index << 3) | rpl.spec_value(),
            r.0 == index * 8 + rpl.spec_value(),
    {
        let v = (index << 3) | rpl.value();
        proof {
            let rv = rpl.spec_value();
            assert((index << 3) | rv == index * 8 + rv) by (bit_vector)
                requires
                    index < 0x2000,
                    rv <= 3,
            ;
        }
        SegmentSelector(v)
    }

    pub fn from_raw(bits: u16) -> (r: SegmentSelector)
        ensures
            r.0 == bits,
    {
        SegmentSelector(bits)
    }

    pub fn as_raw(&self) -> (r: u16)
        ensures
            r == self.0,
    {
        self.0
    }
}

/// The general registers the syscall trampoline saves, in push order.
#[derive(Debug, Clone, Copy, PartialEq, Eq, Structural)]
pub struct Registers {
    pub r15: usize,
    pub r14: usize,
    pub r13: usize,
    pub r12: usize,
    pub r11: usize,
    pub r10: usize,
    pub r9: usize,
    pub r8: usize,
    pub rdi: usize,
    pub rsi: usize,
    pub rdx: usize,
    pub rcx: usize,
    pub rbx: usize,
    pub rax: usize,
    pub rbp: usize,
}

/// The frame an interrupt or `iretq` moves between stack and CPU.
#[derive(Debug, Clone, Copy, PartialEq, Eq, Structural)]
pub struct InterruptFrame {
    pub instruction_pointer: u64,
    pub code_segment: u64,
    pub cpu_flags: u64,
    pub stack_pointer: u64,
    pub stack_segment: u64,
}

} // verus!
