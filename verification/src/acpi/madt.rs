//! The Multiple APIC Description Table and its variable-length entries.

use vstd::prelude::*;

use crate::acpi::sdt::Sdt;
use crate::bits::{le32_at, read_le32};
use crate::fs::gpt::copy_bytes;

verus! {

/// The MADT: its header, the Local APIC address, and the raw entry
/// bytes that follow the fixed part.
#[derive(Clone, Debug)]
pub struct Madt {
    pub header: Sdt,
    pub local_apic_address: u32,
    pub flags: u32,
    /// The entry area: everything after the 44 fixed bytes.
    pub body: Vec<u8>,
}

impl Madt {
    /// Decodes the MADT from its bytes. `None` when the advertised
    /// length is shorter than the fixed part or longer than the bytes
    /// at hand.
    pub fn parse(bytes: &Vec<u8>) -> (r: Option<Madt>)
        requires
            bytes@.len() >= 44,
        ensures
            match r {
                Some(m) => {
                    &&& m.header.signature == le32_at(bytes@, 0)
                    &&& m.local_apic_address == le32_at(bytes@, 36)
                    &&& m.flags == le32_at(bytes@, 40)
                    &&& 44 <= le32_at(bytes@, 4) <= bytes@.len()
                    &&& m.body@ == bytes@.subrange(44, le32_at(bytes@, 4))
                },
                None => le32_at(bytes@, 4) < 44 || le32_at(bytes@, 4) > bytes@.len(),
            },
    {
        let blen = bytes.len();
        let header = Sdt::parse(bytes);
        if header.length < 44 || header.length as usize > blen {
            return None;
        }
        let body = copy_bytes(bytes, 44, header.length as usize - 44);
        Some(
            Madt {
                header,
                local_apic_address: read_le32(bytes, 36),
                flags: read_le32(bytes, 40),
                body,
            },
        )
    }

    /// An iterator over the MADT's typed entries.
    pub fn iter_entries(&self) -> (r: MadtEntryIterator)
        ensures
            r.offset == 0,
    {
        MadtEntryIterator { offset: 0 }
    }
}

/// The `(type, length)` pair every MADT entry starts with.
#[derive(Debug, Clone, Copy, PartialEq, Eq, Structural)]
pub struct MadtEntryHeader {
    pub entry_type: u8,
    pub length: u8,
}

/// One Local APIC entry (type 0).
#[derive(Debug, Clone, Copy, PartialEq, Eq, Structural)]
pub struct MadtLocalApicEntry {
    pub header: MadtEntryHeader,
    pub acpi_processor_id: u8,
    pub apic_id: u8,
    pub flags: u32,
}

/// One IO-APIC entry (type 1).
#[derive(Debug, Clone, Copy, PartialEq, Eq, Structural)]
pub struct MadtIoApicEntry {
    pub header: MadtEntryHeader,
    pub io_apic_id: u8,
    pub io_apic_address: u32,
    pub global_system_interrupt_base: u32,
}

/// A decoded MADT entry: the two kinds the kernel reads, or the raw
/// header of anything else.
#[derive(Debug, Clone, Copy, PartialEq, Eq, Structural)]
pub enum MadtEntry {
    LocalApic(MadtLocalApicEntry),
    IoApic(MadtIoApicEntry),
    Unknown(MadtEntryHeader),
}

/// Walks the MADT's entry area by each entry's own length.
#[derive(Debug, Clone, Copy, PartialEq, Eq, Structural)]
pub struct MadtEntryIterator {
    pub offset: usize,
}

impl MadtEntryIterator {
    /// Decodes the entry at the cursor and steps by its length. Returns
    /// `None` exactly at the end of the area, when an entry overruns
    /// it, when a known entry kind is shorter than its fixed layout,
    /// and — instead of looping forever — when an entry reports length
    /// below its own header's size.
    pub fn next(&mut self, madt: &Madt) -> (r: Option<MadtEntry>)
        ensures
            r is Some <==> ({
                let off = old(self).offset as int;
                let body = madt.body@;
                &&& off + 2 <= body.len()
                &&& body[off + 1] >= 2
                &&& body[off + 1] <= body.len() - off
                &&& (body[off] == 0 ==> body[off + 1] >= 8)
                &&& (body[off] == 1 ==> body[off + 1] >= 12)
            }),
            old(self).offset + 2 > madt.body@.len() ==> r is None && *final(self) == *old(self),
            r is Some ==> {
                &&& old(self).offset + 2 <= madt.body@.len()
                &&& final(self).offset == old(self).offset + madt.body@[old(self).offset + 1]
                &&& madt.body@[old(self).offset + 1] >= 2
                &&& (r == Some(
                    MadtEntry::Unknown(
                        MadtEntryHeader {
                            entry_type: madt.body@[old(self).offset as int],
                            length: madt.body@[old(self).offset + 1],
                        },
                    ),
                ) || madt.body@[old(self).offset as int] == 0 || madt.body@[old(self).offset as int]
                    == 1)
                &&& (madt.body@[old(self).offset as int] == 0 ==> r == Some(
                    MadtEntry::LocalApic(
                        MadtLocalApicEntry {
                            header: MadtEntryHeader {
                                entry_type: 0,
                                length: madt.body@[old(self).offset + 1],
                            },
                            acpi_processor_id: madt.body@[old(self).offset + 2],
                            apic_id: madt.body@[old(self).offset + 3],
                            flags: le32_at(madt.body@, old(self).offset + 4) as u32,
                        },
                    ),
                ))
                &&& (madt.body@[old(self).offset as int] == 1 ==> r == Some(
                    MadtEntry::IoApic(
                        MadtIoApicEntry {
                            header: MadtEntryHeader {
                                entry_type: 1,
                                length: madt.body@[old(self).offset + 1],
                            },
                            io_apic_id: madt.body@[old(self).offset + 2],
                            io_apic_address: le32_at(madt.body@, old(self).offset + 4) as u32,
                            global_system_interrupt_base: le32_at(
                                madt.body@,
                                old(self).offset + 8,
                            ) as u32,
                        },
                    ),
                ))
            },
    {
        let blen = madt.body.len();
        if self.offset >= blen || blen - self.offset < 2 {
            return None;
        }
        let entry_type = madt.body[self.offset];
        let length = madt.body[self.offset + 1];
        // a zero-length entry would never advance: treat it as fatal
        if length < 2 || blen - self.offset < length as usize {
            return None;
        }
        let header = MadtEntryHeader { entry_type, length };
        let start = self.offset;
        let entry = if entry_type == 0 {
            if (length as usize) < 8 {
                return None;
            }
            MadtEntry::LocalApic(
                MadtLocalApicEntry {
                    header,
                    acpi_processor_id: madt.body[start + 2],
                    apic_id: madt.body[start + 3],
                    flags: read_le32(&madt.body, start + 4),
                },
            )
        } else if entry_type == 1 {
            if (length as usize) < 12 {
                return None;
            }
            MadtEntry::IoApic(
                MadtIoApicEntry {
                    header,
                    io_apic_id: madt.body[start + 2],
                    io_apic_address: read_le32(&madt.body, start + 4),
                    global_system_interrupt_base: read_le32(&madt.body, start + 8),
                },
            )
        } else {
            MadtEntry::Unknown(header)
        };
        self.offset = self.offset + length as usize;
        Some(entry)
    }
}

} // verus!
