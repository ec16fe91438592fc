//! The common 36-byte system description table header.

use vstd::prelude::*;

use crate::bits::{le32_at, read_le32};
use crate::fs::gpt::copy_bytes;

verus! {

/// The MADT's 4-byte signature `APIC`, read little-endian.
pub const MADT_SIGNATURE: u32 = 0x43495041;

/// The header every ACPI table starts with.
#[derive(Clone, Debug)]
pub struct Sdt {
    /// The 4-byte signature, read as a little-endian word.
    pub signature: u32,
    /// Total length of the table, header included.
    pub length: u32,
    pub revision: u8,
    pub checksum: u8,
    pub oem_id: Vec<u8>,
    pub oem_table_id: Vec<u8>,
    pub oem_revision: u32,
    pub creator_id: u32,
    pub creator_revision: u32,
}

impl Sdt {
    /// Decodes the header at the start of `bytes`.
    pub fn parse(bytes: &Vec<u8>) -> (r: Sdt)
        requires
            bytes@.len() >= 36,
        ensures
            r.signature == le32_at(bytes@, 0),
            r.length == le32_at(bytes@, 4),
            r.revision == bytes@[8],
            r.checksum == bytes@[9],
            r.oem_id@ == bytes@.subrange(10, 16),
            r.oem_table_id@ == bytes@.subrange(16, 24),
            r.oem_revision == le32_at(bytes@, 24),
            r.creator_id == le32_at(bytes@, 28),
            r.creator_revision == le32_at(bytes@, 32),
    {
        let _blen = bytes.len();
        Sdt {
            signature: read_le32(bytes, 0),
            length: read_le32(bytes, 4),
            revision: bytes[8],
            checksum: bytes[9],
            oem_id: copy_bytes(bytes, 10, 6),
            oem_table_id: copy_bytes(bytes, 16, 8),
            oem_revision: read_le32(bytes, 24),
            creator_id: read_le32(bytes, 28),
            creator_revision: read_le32(bytes, 32),
        }
    }

    /// Whether this table carries the given signature.
    pub fn matches_signature(&self, signature: u32) -> (r: bool)
        ensures
            r == (self.signature == signature),
    {
        self.signature == signature
    }
}

} // verus!
