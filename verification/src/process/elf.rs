//! A parsed view over an in-memory ELF64 image.

use vstd::prelude::*;

use crate::bits::{le16_at, le32_at, le64_at, read_le16, read_le32, read_le64};
use crate::fs::gpt::copy_bytes;

verus! {

/// Program header types, with `Other` carrying anything else.
#[derive(Debug, Clone, Copy, PartialEq, Eq, Structural)]
pub enum ProgramHeaderType {
    Null,
    Load,
    Dynamic,
    Interp,
    Note,
    Shlib,
    Phdr,
    Tls,
    Other,
}

/// The type a raw `p_type` word names.
pub open spec fn spec_ph_type(raw: u32) -> ProgramHeaderType {
    if raw == 0 {
        ProgramHeaderType::Null
    } else if raw == 1 {
        ProgramHeaderType::Load
    } else if raw == 2 {
        ProgramHeaderType::Dynamic
    } else if raw == 3 {
        ProgramHeaderType::Interp
    } else if raw == 4 {
        ProgramHeaderType::Note
    } else if raw == 5 {
        ProgramHeaderType::Shlib
    } else if raw == 6 {
        ProgramHeaderType::Phdr
    } else if raw == 7 {
        ProgramHeaderType::Tls
    } else {
        ProgramHeaderType::Other
    }
}

/// One 56-byte ELF64 program header.
#[derive(Debug, Clone, Copy, PartialEq, Eq, Structural)]
pub struct ProgramHeader {
    pub p_type_raw: u32,
    pub p_flags: u32,
    pub p_offset: u64,
    pub p_vaddr: u64,
    pub p_paddr: u64,
    pub p_filesz: u64,
    pub p_memsz: u64,
    pub p_align: u64,
}

impl ProgramHeader {
    /// The decoded segment type.
    pub fn p_type(&self) -> (r: ProgramHeaderType)
        ensures
            r == spec_ph_type(self.p_type_raw),
    {
        if self.p_type_raw == 0 {
            ProgramHeaderType::Null
        } else if self.p_type_raw == 1 {
            ProgramHeaderType::Load
        } else if self.p_type_raw == 2 {
            ProgramHeaderType::Dynamic
        } else if self.p_type_raw == 3 {
            ProgramHeaderType::Interp
        } else if self.p_type_raw == 4 {
            ProgramHeaderType::Note
        } else if self.p_type_raw == 5 {
            ProgramHeaderType::Shlib
        } else if self.p_type_raw == 6 {
            ProgramHeaderType::Phdr
        } else if self.p_type_raw == 7 {
            ProgramHeaderType::Tls
        } else {
            ProgramHeaderType::Other
        }
    }
}

/// One 64-byte ELF64 section header.
#[derive(Debug, Clone, Copy, PartialEq, Eq, Structural)]
pub struct SectionHeader {
    pub sh_name: u32,
    pub sh_type: u32,
    pub sh_flags: u64,
    pub sh_addr: u64,
    pub sh_offset: u64,
    pub sh_size: u64,
    pub sh_link: u32,
    pub sh_info: u32,
    pub sh_addralign: u64,
    pub sh_entsize: u64,
}

/// A parsed ELF64 image, owning its bytes.
pub struct ElfFile {
    pub e_entry: u64,
    pub e_phoff: u64,
    pub e_shoff: u64,
    pub e_phnum: u16,
    pub e_shnum: u16,
    pub program_headers: Vec<ProgramHeader>,
    pub section_headers: Vec<SectionHeader>,
    pub buffer: Vec<u8>,
}

/// The ELF magic: 0x7F `E` `L` `F`.
pub open spec fn spec_elf_magic(b: Seq<u8>) -> bool {
    b.len() >= 4 && b[0] == 0x7F && b[1] == 0x45 && b[2] == 0x4C && b[3] == 0x46
}

/// When an image parses: a full header with the magic, both header
/// tables inside the image, and table offsets within the model's cap.
pub open spec fn spec_elf_parsable(b: Seq<u8>) -> bool {
    &&& b.len() >= 64
    &&& spec_elf_magic(b)
    &&& le64_at(b, 32) <= 0x1000_0000
    &&& le64_at(b, 40) <= 0x1000_0000
    &&& le64_at(b, 32) + le16_at(b, 56) * 56 <= b.len()
    &&& le64_at(b, 40) + le16_at(b, 60) * 64 <= b.len()
}

impl ElfFile {
    /// Parses the header and both header tables from `buffer`. `None`
    /// exactly when the magic is wrong or a table lies outside the
    /// image or the offset cap.
    pub fn parse(buffer: Vec<u8>) -> (r: Option<ElfFile>)
        ensures
            r is Some <==> spec_elf_parsable(buffer@),
            match r {
                Some(e) => {
                    &&& spec_elf_magic(buffer@)
                    &&& buffer@.len() >= 64
                    &&& e.buffer == buffer
                    &&& e.e_entry == le64_at(buffer@, 24)
                    &&& e.e_phoff == le64_at(buffer@, 32)
                    &&& e.e_shoff == le64_at(buffer@, 40)
                    &&& e.e_phnum == le16_at(buffer@, 56)
                    &&& e.e_shnum == le16_at(buffer@, 60)
                    &&& e.program_headers@.len() == e.e_phnum
                    &&& e.section_headers@.len() == e.e_shnum
                    &&& forall|k: int|
                        0 <= k < e.e_phnum ==> {
                            let base = le64_at(buffer@, 32) + 56 * k;
                            &&& (#[trigger] e.program_headers@[k]).p_type_raw == le32_at(
                                buffer@,
                                base,
                            )
                            &&& e.program_headers@[k].p_offset == le64_at(buffer@, base + 8)
                            &&& e.program_headers@[k].p_vaddr == le64_at(buffer@, base + 16)
                            &&& e.program_headers@[k].p_filesz == le64_at(buffer@, base + 32)
                            &&& e.program_headers@[k].p_memsz == le64_at(buffer@, base + 40)
                        }
                },
                None => true,
            },
    {
        let blen = buffer.len();
        if blen < 64 {
            return None;
        }
        if !(buffer[0] == 0x7F && buffer[1] == 0x45 && buffer[2] == 0x4C && buffer[3] == 0x46) {
            return None;
        }
        let e_entry = read_le64(&buffer, 24);
        let e_phoff = read_le64(&buffer, 32);
        let e_shoff = read_le64(&buffer, 40);
        let e_phnum = read_le16(&buffer, 56);
        let e_shnum = read_le16(&buffer, 60);
        if e_phoff > 0x1000_0000 || e_shoff > 0x1000_0000 {
            return None;
        }
        let phoff = e_phoff as usize;
        let shoff = e_shoff as usize;
        if phoff + (e_phnum as usize) * 56 > blen || shoff + (e_shnum as usize) * 64 > blen {
            return None;
        }
        let mut program_headers: Vec<ProgramHeader> = Vec::new();
        let mut k: usize = 0;
        while k < e_phnum as usize
            invariant
                0 <= k <= e_phnum,
                e_phoff == phoff,
                phoff + (e_phnum as int) * 56 <= buffer@.len(),
                buffer@.len() <= usize::MAX,
                program_headers@.len() == k,
                forall|j: int|
                    0 <= j < k ==> {
                        let base = phoff + 56 * j;
                        &&& (#[trigger] program_headers@[j]).p_type_raw == le32_at(buffer@, base)
                        &&& program_headers@[j].p_offset == le64_at(buffer@, base + 8)
                        &&& program_headers@[j].p_vaddr == le64_at(buffer@, base + 16)
                        &&& program_headers@[j].p_filesz == le64_at(buffer@, base + 32)
                        &&& program_headers@[j].p_memsz == le64_at(buffer@, base + 40)
                    },
            decreases e_phnum - k,
        {
            proof {
                assert(56 * (k + 1) <= 56 * (e_phnum as int)) by (nonlinear_arith)
                    requires
                        k + 1 <= e_phnum,
                ;
                assert(56 * k >= 0) by (nonlinear_arith)
                    requires
                        k >= 0,
                ;
            }
            let base = phoff + 56 * k;
            program_headers.push(
                ProgramHeader {
                    p_type_raw: read_le32(&buffer, base),
                    p_flags: read_le32(&buffer, base + 4),
                    p_offset: read_le64(&buffer, base + 8),
                    p_vaddr: read_le64(&buffer, base + 16),
                    p_paddr: read_le64(&buffer, base + 24),
                    p_filesz: read_le64(&buffer, base + 32),
                    p_memsz: read_le64(&buffer, base + 40),
                    p_align: read_le64(&buffer, base + 48),
                },
            );
            k = k + 1;
        }
        let mut section_headers: Vec<SectionHeader> = Vec::new();
        let mut k2: usize = 0;
        while k2 < e_shnum as usize
            invariant
                0 <= k2 <= e_shnum,
                e_shoff == shoff,
                shoff + (e_shnum as int) * 64 <= buffer@.len(),
                buffer@.len() <= usize::MAX,
                section_headers@.len() == k2,
            decreases e_shnum - k2,
        {
            proof {
                assert(64 * (k2 + 1) <= 64 * (e_shnum as int)) by (nonlinear_arith)
                    requires
                        k2 + 1 <= e_shnum,
                ;
                assert(64 * k2 >= 0) by (nonlinear_arith)
                    requires
                        k2 >= 0,
                ;
            }
            let base = shoff + 64 * k2;
            section_headers.push(
                SectionHeader {
                    sh_name: read_le32(&buffer, base),
                    sh_type: read_le32(&buffer, base + 4),
                    sh_flags: read_le64(&buffer, base + 8),
                    sh_addr: read_le64(&buffer, base + 16),
                    sh_offset: read_le64(&buffer, base + 24),
                    sh_size: read_le64(&buffer, base + 32),
                    sh_link: read_le32(&buffer, base + 40),
                    sh_info: read_le32(&buffer, base + 44),
                    sh_addralign: read_le64(&buffer, base + 48),
                    sh_entsize: read_le64(&buffer, base + 56),
                },
            );
            k2 = k2 + 1;
        }
        Some(
            ElfFile {
                e_entry,
                e_phoff,
                e_shoff,
                e_phnum,
                e_shnum,
                program_headers,
                section_headers,
                buffer,
            },
        )
    }

    /// The program's entry point, relative to its load base.
    pub fn entry_point(&self) -> (r: u64)
        ensures
            r == self.e_entry,
    {
        self.e_entry
    }

    /// The file bytes of segment `segment_index`. `None` when the
    /// segment's file extent lies outside the image.
    pub fn data(&self, segment_index: usize) -> (r: Option<Vec<u8>>)
        requires
            segment_index < self.program_headers@.len(),
        ensures
            match r {
                Some(d) => {
                    let h = self.program_headers@[segment_index as int];
                    &&& h.p_offset + h.p_filesz <= self.buffer@.len()
                    &&& d@ == self.buffer@.subrange(
                        h.p_offset as int,
                        h.p_offset + h.p_filesz,
                    )
                },
                None => {
                    let h = self.program_headers@[segment_index as int];
                    h.p_offset + h.p_filesz > self.buffer@.len()
                },
            },
    {
        let header = &self.program_headers[segment_index];
        let blen = self.buffer.len();
        if header.p_offset > blen as u64 || header.p_filesz > blen as u64 - header.p_offset {
            return None;
        }
        Some(copy_bytes(&self.buffer, header.p_offset as usize, header.p_filesz as usize))
    }
}

} // verus!
