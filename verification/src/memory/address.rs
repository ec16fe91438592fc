//! Typed physical and virtual addresses.
//!
//! A virtual address exposes the four 9-bit page-table indices and the
//! 12-bit page offset used by the 4-level x86_64 paging structure.

use vstd::prelude::*;

verus! {

/// A physical memory address.
#[derive(Debug, Clone, Copy, PartialEq, Eq, Structural, Hash)]
pub struct PhysicalAddress(pub u64);

impl PhysicalAddress {
    pub fn new(addr: u64) -> (r: Self)
        ensures
            r.0 == addr,
    {
        Self(addr)
    }

    pub fn as_u64(&self) -> (r: u64)
        ensures
            r == self.0,
    {
        self.0
    }

    /// The largest multiple of `align` that is at most `self`.
    pub fn align_down(&self, align: u64) -> (r: PhysicalAddress)
        requires
            align > 0,
        ensures
            r.0 == self.0 / align * align,
    {
        proof {
            lemma_div_mul_le(self.0, align);
        }
        PhysicalAddress(self.0 / align * align)
    }

    /// `self + rhs`, the address `rhs` bytes further on.
    pub fn offset(&self, rhs: u64) -> (r: PhysicalAddress)
        requires
            self.0 + rhs <= u64::MAX,
        ensures
            r.0 == self.0 + rhs,
    {
        PhysicalAddress(self.0 + rhs)
    }
}

/// Rounding down to a multiple of `b` never goes up.
pub proof fn lemma_div_mul_le(a: u64, b: u64)
    by (nonlinear_arith)
    requires
        b > 0,
    ensures
        a / b * b <= a,
{
}

/// The 9-bit level 1 table index of virtual address `a`.
pub open spec fn spec_p1_index(a: u64) -> u16 {
    ((a >> 12) & 0x1ff) as u16
}

/// The 9-bit level 2 table index of virtual address `a`.
pub open spec fn spec_p2_index(a: u64) -> u16 {
    ((a >> 21) & 0x1ff) as u16
}

/// The 9-bit level 3 table index of virtual address `a`.
pub open spec fn spec_p3_index(a: u64) -> u16 {
    ((a >> 30) & 0x1ff) as u16
}

/// The 9-bit level 4 table index of virtual address `a`.
pub open spec fn spec_p4_index(a: u64) -> u16 {
    ((a >> 39) & 0x1ff) as u16
}

/// The 12-bit offset of virtual address `a` within its page.
pub open spec fn spec_page_offset(a: u64) -> u64 {
    a & 0xfff
}

/// The four table indices are 9 bits and the page offset 12 bits wide.
pub proof fn lemma_index_masks(a: u64)
    by (bit_vector)
    ensures
        (a >> 12) & 0x1ff < 512,
        (a >> 21) & 0x1ff < 512,
        (a >> 30) & 0x1ff < 512,
        (a >> 39) & 0x1ff < 512,
        a & 0xfff < 4096,
{
}

/// A virtual memory address.
#[derive(Debug, Clone, Copy, PartialEq, Eq, Structural, Hash)]
pub struct VirtualAddress(pub u64);

impl VirtualAddress {
    pub fn new(addr: u64) -> (r: Self)
        ensures
            r.0 == addr,
    {
        Self(addr)
    }

    pub fn zeroed() -> (r: Self)
        ensures
            r.0 == 0,
    {
        Self(0)
    }

    pub fn as_u64(&self) -> (r: u64)
        ensures
            r == self.0,
    {
        self.0
    }

    /// The largest multiple of `align` that is at most `self`.
    pub fn align_down(&self, align: u64) -> (r: VirtualAddress)
        requires
            align > 0,
        ensures
            r.0 == self.0 / align * align,
    {
        proof {
            lemma_div_mul_le(self.0, align);
        }
        VirtualAddress(self.0 / align * align)
    }

    /// The 12-bit offset within the page.
    pub fn page_offset(&self) -> (r: u64)
        ensures
            r == spec_page_offset(self.0),
    {
        self.0 & 0xfff
    }

    /// `self + rhs`, the address `rhs` bytes further on.
    pub fn offset(&self, rhs: u64) -> (r: VirtualAddress)
        requires
            self.0 + rhs <= u64::MAX,
        ensures
            r.0 == self.0 + rhs,
    {
        VirtualAddress(self.0 + rhs)
    }

    pub fn p1_index(&self) -> (r: u16)
        ensures
            r == spec_p1_index(self.0),
            r < 512,
    {
        proof { lemma_index_masks(self.0); }
        ((self.0 >> 12) & 0x1ff) as u16
    }

    /// Returns the 9-bit level 2 page table index.
    pub fn p2_index(&self) -> (r: u16)
        ensures
            r == spec_p2_index(self.0),
            r < 512,
    {
        proof { lemma_index_masks(self.0); }
        ((self.0 >> 21) & 0x1ff) as u16
    }

    /// Returns the 9-bit level 3 page table index.
    pub fn p3_index(&self) -> (r: u16)
        ensures
            r == spec_p3_index(self.0),
            r < 512,
    {
        proof { lemma_index_masks(self.0); }
        ((self.0 >> 30) & 0x1ff) as u16
    }

    /// Returns the 9-bit level 4 page table index.
    pub fn p4_index(&self) -> (r: u16)
        ensures
            r == spec_p4_index(self.0),
            r < 512,
    {
        proof { lemma_index_masks(self.0); }
        ((self.0 >> 39) & 0x1ff) as u16
    }
}

} // verus!
