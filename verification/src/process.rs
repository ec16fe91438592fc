//! ELF64 loading and user-process entry.

pub mod elf;
pub mod loader;
