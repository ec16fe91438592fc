//! The root system description pointer.

use vstd::prelude::*;

use crate::bits::{le32_at, read_le32};
use crate::fs::gpt::copy_bytes;

verus! {

/// The 20-byte ACPI 1.0 RSDP, as handed over by the boot protocol.
#[derive(Clone, Debug)]
pub struct Rsdp {
    pub signature: Vec<u8>,
    pub checksum: u8,
    pub oem_id: Vec<u8>,
    pub revision: u8,
    pub rsdt_address: u32,
}

impl Rsdp {
    /// Decodes the structure from the bytes at the pointer the boot
    /// protocol reported.
    pub fn parse(bytes: &Vec<u8>) -> (r: Rsdp)
        requires
            bytes@.len() >= 20,
        ensures
            r.signature@ == bytes@.subrange(0, 8),
            r.checksum == bytes@[8],
            r.oem_id@ == bytes@.subrange(9, 15),
            r.revision == bytes@[15],
            r.rsdt_address == le32_at(bytes@, 16),
    {
        let _blen = bytes.len();
        Rsdp {
            signature: copy_bytes(bytes, 0, 8),
            checksum: bytes[8],
            oem_id: copy_bytes(bytes, 9, 6),
            revision: bytes[15],
            rsdt_address: read_le32(bytes, 16),
        }
    }

    /// Physical address of the RSDT.
    pub fn sdt_address(&self) -> (r: u32)
        ensures
            r == self.rsdt_address,
    {
        self.rsdt_address
    }
}

} // verus!
