//! Local APIC and IO-APIC programming: the registers and values the
//! kernel writes. The MMIO stores themselves happen outside; these
//! functions compute the exact write sequences.

use vstd::prelude::*;

verus! {

/// One MMIO register write: the register offset (or selector value)
/// and the value to store.
#[derive(Debug, Clone, Copy, PartialEq, Eq, Structural)]
pub struct RegisterWrite {
    pub reg: u32,
    pub value: u32,
}

/// The IRQ lines the kernel redirects.
#[derive(Debug, Clone, Copy, PartialEq, Eq, Structural)]
pub enum Irq {
    Timer,
    Keyboard,
    Mouse,
}

impl Irq {
    /// The global system interrupt line.
    pub open spec fn spec_number(&self) -> u32 {
        match self {
            Irq::Timer => 0,
            Irq::Keyboard => 1,
            Irq::Mouse => 12,
        }
    }

    pub fn number(&self) -> (r: u32)
        ensures
            r == self.spec_number(),
    {
        match self {
            Irq::Timer => 0,
            Irq::Keyboard => 1,
            Irq::Mouse => 12,
        }
    }
}

/// One IO-APIC, as the MADT reported it.
#[derive(Debug, Clone, Copy, PartialEq, Eq, Structural)]
pub struct IoApic {
    pub io_apic_address: u32,
    pub io_apic_id: u8,
}

impl IoApic {
    /// The redirection-table writes for `irq` to `vector`: the low
    /// dword masked first, then the destination in the high dword's
    /// bits 24..=31, then the low dword again with the mask cleared, so
    /// no interrupt fires half-programmed.
    pub fn redirect(&self, irq: Irq, vector: u32) -> (r: Vec<RegisterWrite>)
        ensures
            r@.len() == 3,
            r@[0] == (RegisterWrite {
                reg: (0x10 + irq.spec_number() * 2) as u32,
                value: (vector & 0xFF) | (1u32 << 15),
            }),
            r@[1] == (RegisterWrite {
                reg: (0x10 + irq.spec_number() * 2 + 1) as u32,
                value: (self.io_apic_id as u32) << 24,
            }),
            r@[2] == (RegisterWrite {
                reg: (0x10 + irq.spec_number() * 2) as u32,
                value: ((vector & 0xFF) | (1u32 << 15)) & !(1u32 << 15),
            }),
    {
        let index = 0x10 + irq.number() * 2;
        let high_index = index + 1;
        let low_part = (vector & 0xFF) | (1u32 << 15);
        let high_part = (self.io_apic_id as u32) << 24;
        let mut r: Vec<RegisterWrite> = Vec::new();
        r.push(RegisterWrite { reg: index, value: low_part });
        r.push(RegisterWrite { reg: high_index, value: high_part });
        r.push(RegisterWrite { reg: index, value: low_part & !(1u32 << 15) });
        r
    }
}

/// Register offset of the IO-APIC's selector window.
pub const IO_APIC_REGSEL: u32 = 0x00;

/// Register offset of the IO-APIC's data window.
pub const IO_APIC_IOWIN: u32 = 0x10;

/// The bootstrap processor's Local APIC, as the MADT reported it.
#[derive(Debug, Clone, Copy, PartialEq, Eq, Structural)]
pub struct LocalApic {
    pub local_apic_address: u32,
    pub acpi_processor_id: u8,
    pub apic_id: u8,
}

impl LocalApic {
    /// The initialization writes: task priority zero, spurious vector
    /// register enabled at vector 0xFF, divide-by-16, and the periodic
    /// timer's initial count.
    pub fn init_writes(&self) -> (r: Vec<RegisterWrite>)
        ensures
            r@.len() == 4,
            r@[0] == (RegisterWrite { reg: 0x80, value: 0 }),
            r@[1] == (RegisterWrite { reg: 0xF0, value: 0x1FF }),
            r@[2] == (RegisterWrite { reg: 0x3E0, value: 0x03 }),
            r@[3] == (RegisterWrite { reg: 0x380, value: 50_000_000 }),
    {
        let mut r: Vec<RegisterWrite> = Vec::new();
        r.push(RegisterWrite { reg: 0x80, value: 0 });
        r.push(RegisterWrite { reg: 0xF0, value: 0x1FF });
        r.push(RegisterWrite { reg: 0x3E0, value: 0x03 });
        r.push(RegisterWrite { reg: 0x380, value: 50_000_000 });
        r
    }

    /// The LVT-timer write arming a periodic timer on `vector`.
    pub fn enable_interrupt(&self, vector: u8) -> (r: RegisterWrite)
        ensures
            r == (RegisterWrite { reg: 0x320, value: (1u32 << 17) | (vector as u32) }),
    {
        RegisterWrite { reg: 0x320, value: (1u32 << 17) | (vector as u32) }
    }

    /// The end-of-interrupt write.
    pub fn end_of_interrupt(&self) -> (r: RegisterWrite)
        ensures
            r == (RegisterWrite { reg: 0xB0, value: 0 }),
    {
        RegisterWrite { reg: 0xB0, value: 0 }
    }
}

} // verus!
