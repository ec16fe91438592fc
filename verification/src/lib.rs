//! Core of a small x86_64 operating-system kernel: physical and virtual
//! memory management, ACPI table parsing, APIC programming values, GDT/TSS
//! and IDT construction, PCI configuration decoding, an NVMe driver model,
//! a GPT + FAT32 read path, and an ELF64 loader with a syscall dispatcher.
//!
//! Everything that computes or decides lives here with a contract; the thin
//! layer that touches hardware (port and MMIO access, interrupt entry)
//! stays outside and hands this library plain values.

pub mod acpi;
pub mod arch;
pub mod bits;
pub mod block;
pub mod fs;
pub mod memory;
pub mod nvme;
pub mod pci;
pub mod process;
pub mod syscall;
pub mod utils;
