//! ACPI table parsing: RSDP, RSDT and the MADT.

pub mod madt;
pub mod rsdp;
pub mod rsdt;
pub mod sdt;

use vstd::prelude::*;

use crate::acpi::madt::Madt;

verus! {

/// The platform description the kernel keeps: its MADT.
pub struct Acpi {
    pub madt: Madt,
}

impl Acpi {
    pub fn new(madt: Madt) -> (r: Acpi)
        ensures
            r.madt == madt,
    {
        Acpi { madt }
    }
}

} // verus!
