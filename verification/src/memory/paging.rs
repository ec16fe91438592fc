//! Virtual pages and 64-bit page-table entries.

use vstd::prelude::*;

use crate::memory::address::{
    spec_p1_index, spec_p2_index, spec_p3_index, spec_p4_index, PhysicalAddress, VirtualAddress,
};
use crate::memory::frame::PhysicalFrame;

verus! {

/// Number of bytes in one virtual page.
pub const PAGE_SIZE: u64 = 4096;

/// Mask of the physical-address field of a page-table entry.
pub const ENTRY_ADDRESS_MASK: u64 = 0x000f_ffff_ffff_f000;

/// A 4 KiB-aligned virtual page, identified by its start address.
#[derive(Debug, Clone, Copy, PartialEq, Eq, Structural, Hash)]
pub struct Page {
    pub start_address: VirtualAddress,
}

impl Page {
    pub fn p4_index(&self) -> (r: u16)
        ensures
            r == spec_p4_index(self.start_address.0),
            r < 512,
    {
        self.start_address.p4_index()
    }

    pub fn p3_index(&self) -> (r: u16)
        ensures
            r == spec_p3_index(self.start_address.0),
            r < 512,
    {
        self.start_address.p3_index()
    }

    pub fn p2_index(&self) -> (r: u16)
        ensures
            r == spec_p2_index(self.start_address.0),
            r < 512,
    {
        self.start_address.p2_index()
    }

    pub fn p1_index(&self) -> (r: u16)
        ensures
            r == spec_p1_index(self.start_address.0),
            r < 512,
    {
        self.start_address.p1_index()
    }

    /// The page whose 4 KiB span contains `addr`.
    pub fn containing_address(addr: VirtualAddress) -> (r: Self)
        ensures
            r.start_address.0 == addr.0 / 4096 * 4096,
            r.start_address.0 % 4096 == 0,
    {
        Self { start_address: addr.align_down(PAGE_SIZE) }
    }

    /// Iterator over every page whose start lies in `[start, end]`.
    pub fn range_inclusive(start: Page, end: Page) -> (r: PageIter)
        ensures
            r.start == start,
            r.end == end,
    {
        PageIter { start, end }
    }
}

/// Walks pages from `start` up to and including `end`.
#[derive(Clone, Copy, PartialEq, Eq, Structural, Hash)]
pub struct PageIter {
    pub start: Page,
    pub end: Page,
}

impl PageIter {
    /// The next page of the range, stepping `start` forward 4 KiB.
    pub fn next(&mut self) -> (r: Option<Page>)
        requires
            old(self).start.start_address.0 + 4096 <= u64::MAX,
        ensures
            final(self).end == old(self).end,
            if old(self).start.start_address.0 <= old(self).end.start_address.0 {
                r == Some(old(self).start)
                    && final(self).start.start_address.0 == old(self).start.start_address.0 + 4096
            } else {
                r == None::<Page> && final(self).start == old(self).start
            },
    {
        if self.start.start_address.0 <= self.end.start_address.0 {
            let page = self.start;
            self.start = Page {
                start_address: VirtualAddress(page.start_address.0 + PAGE_SIZE),
            };
            Some(page)
        } else {
            None
        }
    }
}

/// Whether the entry's present bit (bit 0) is set.
pub open spec fn spec_entry_present(e: u64) -> bool {
    e & 1 == 1
}

/// Whether the entry's writable bit (bit 1) is set.
pub open spec fn spec_entry_writable(e: u64) -> bool {
    (e >> 1) & 1 == 1
}

/// Whether the entry's user-accessible bit (bit 2) is set.
pub open spec fn spec_entry_user(e: u64) -> bool {
    (e >> 2) & 1 == 1
}

/// Whether the entry's huge-page bit (bit 7) is set.
pub open spec fn spec_entry_huge(e: u64) -> bool {
    (e >> 7) & 1 == 1
}

/// The physical-address field of the entry.
pub open spec fn spec_entry_addr(e: u64) -> u64 {
    e & 0x000f_ffff_ffff_f000
}

/// The address field of any entry is frame-aligned and leaves room for
/// a page offset below `u64::MAX`.
pub proof fn lemma_entry_addr_bounds(e: u64)
    by (bit_vector)
    ensures
        spec_entry_addr(e) % 4096 == 0,
        spec_entry_addr(e) <= 0x000f_ffff_ffff_f000,
{
}

/// A 64-bit x86_64 page-table entry.
#[derive(Debug, Clone, Copy, PartialEq, Eq, Structural, Hash)]
pub struct PageTableEntry {
    pub entry: u64,
}

impl PageTableEntry {
    pub fn new() -> (r: Self)
        ensures
            r.entry == 0,
    {
        Self { entry: 0 }
    }

    pub fn is_unused(&self) -> (r: bool)
        ensures
            r == (self.entry == 0),
    {
        self.entry == 0
    }

    /// Clears the whole entry to zero.
    pub fn set_unused(&mut self)
        ensures
            final(self).entry == 0,
    {
        self.entry = 0;
    }

    pub fn present(&self) -> (r: bool)
        ensures
            r == spec_entry_present(self.entry),
    {
        self.entry & 1 == 1
    }

    pub fn set_present(&mut self)
        ensures
            final(self).entry == old(self).entry | 1,
    {
        self.entry = self.entry | 1;
    }

    pub fn writable(&self) -> (r: bool)
        ensures
            r == spec_entry_writable(self.entry),
    {
        (self.entry >> 1) & 1 == 1
    }

    pub fn set_writable(&mut self)
        ensures
            final(self).entry == old(self).entry | 2,
    {
        self.entry = self.entry | 2;
    }

    pub fn user_accessible(&self) -> (r: bool)
        ensures
            r == spec_entry_user(self.entry),
    {
        (self.entry >> 2) & 1 == 1
    }

    pub fn set_user_accessible(&mut self)
        ensures
            final(self).entry == old(self).entry | 4,
    {
        self.entry = self.entry | 4;
    }

    pub fn write_through(&self) -> (r: bool)
        ensures
            r == ((self.entry >> 3) & 1 == 1),
    {
        (self.entry >> 3) & 1 == 1
    }

    pub fn accessed(&self) -> (r: bool)
        ensures
            r == ((self.entry >> 5) & 1 == 1),
    {
        (self.entry >> 5) & 1 == 1
    }

    pub fn dirty(&self) -> (r: bool)
        ensures
            r == ((self.entry >> 6) & 1 == 1),
    {
        (self.entry >> 6) & 1 == 1
    }

    pub fn huge_page(&self) -> (r: bool)
        ensures
            r == spec_entry_huge(self.entry),
    {
        (self.entry >> 7) & 1 == 1
    }

    /// The frame the entry points at, if the entry is present.
    pub fn frame(&self) -> (r: Option<PhysicalFrame>)
        ensures
            if spec_entry_present(self.entry) {
                r == Some(PhysicalFrame {
                    start_address: PhysicalAddress(spec_entry_addr(self.entry)),
                })
            } else {
                r == None::<PhysicalFrame>
            },
    {
        if self.present() {
            proof {
                lemma_entry_addr_bounds(self.entry);
            }
            Some(PhysicalFrame::containing_address(self.physical_address_raw()))
        } else {
            None
        }
    }

    /// The address field, whether or not the entry is present.
    fn physical_address_raw(&self) -> (r: PhysicalAddress)
        ensures
            r.0 == spec_entry_addr(self.entry),
    {
        PhysicalAddress(self.entry & ENTRY_ADDRESS_MASK)
    }

    /// The address field, if the entry is present.
    pub fn physical_address(&self) -> (r: Option<PhysicalAddress>)
        ensures
            if spec_entry_present(self.entry) {
                r == Some(PhysicalAddress(spec_entry_addr(self.entry)))
            } else {
                r == None::<PhysicalAddress>
            },
    {
        if self.present() {
            Some(self.physical_address_raw())
        } else {
            None
        }
    }

    /// Replaces the address field with `frame`, leaving every flag bit alone.
    pub fn set_frame(&mut self, frame: PhysicalFrame)
        requires
            frame.start_address.0 % 4096 == 0,
            frame.start_address.0 <= 0x000f_ffff_ffff_f000,
        ensures
            spec_entry_addr(final(self).entry) == frame.start_address.0,
            spec_entry_present(final(self).entry) == spec_entry_present(old(self).entry),
            spec_entry_writable(final(self).entry) == spec_entry_writable(old(self).entry),
            spec_entry_user(final(self).entry) == spec_entry_user(old(self).entry),
            spec_entry_huge(final(self).entry) == spec_entry_huge(old(self).entry),
            (final(self).entry >> 3) & 1 == (old(self).entry >> 3) & 1,
            (final(self).entry >> 5) & 1 == (old(self).entry >> 5) & 1,
            (final(self).entry >> 6) & 1 == (old(self).entry >> 6) & 1,
    {
        proof {
            lemma_set_frame(self.entry, frame.start_address.0);
        }
        // clear the address bits, then set them to the frame's start
        self.entry = (self.entry & !ENTRY_ADDRESS_MASK) | (frame.start_address.0
            & ENTRY_ADDRESS_MASK);
    }
}

/// Swapping the address field of an entry keeps every flag bit.
proof fn lemma_set_frame(e: u64, f: u64)
    by (bit_vector)
    requires
        f % 4096 == 0,
        f <= 0x000f_ffff_ffff_f000,
    ensures
        spec_entry_addr((e & !0x000f_ffff_ffff_f000) | (f & 0x000f_ffff_ffff_f000)) == f,
        spec_entry_present((e & !0x000f_ffff_ffff_f000) | (f & 0x000f_ffff_ffff_f000))
            == spec_entry_present(e),
        spec_entry_writable((e & !0x000f_ffff_ffff_f000) | (f & 0x000f_ffff_ffff_f000))
            == spec_entry_writable(e),
        spec_entry_user((e & !0x000f_ffff_ffff_f000) | (f & 0x000f_ffff_ffff_f000))
            == spec_entry_user(e),
        spec_entry_huge((e & !0x000f_ffff_ffff_f000) | (f & 0x000f_ffff_ffff_f000))
            == spec_entry_huge(e),
        (((e & !0x000f_ffff_ffff_f000) | (f & 0x000f_ffff_ffff_f000)) >> 3) & 1 == (e >> 3) & 1,
        (((e & !0x000f_ffff_ffff_f000) | (f & 0x000f_ffff_ffff_f000)) >> 5) & 1 == (e >> 5) & 1,
        (((e & !0x000f_ffff_ffff_f000) | (f & 0x000f_ffff_ffff_f000)) >> 6) & 1 == (e >> 6) & 1,
{
}

/// OR-ing flag bits below bit 12 into an entry keeps the address field and
/// the huge bit, and sets exactly the requested flags.
pub proof fn lemma_or_flags(e: u64, flags: u64)
    by (bit_vector)
    requires
        flags < 8,
    ensures
        spec_entry_addr(e | flags) == spec_entry_addr(e),
        spec_entry_huge(e | flags) == spec_entry_huge(e),
        spec_entry_present(e | flags) == (spec_entry_present(e) || flags & 1 == 1),
        spec_entry_writable(e | flags) == (spec_entry_writable(e) || flags & 2 == 2),
        spec_entry_user(e | flags) == (spec_entry_user(e) || flags & 4 == 4),
        ((e | flags) >> 3) & 1 == (e >> 3) & 1,
        ((e | flags) >> 5) & 1 == (e >> 5) & 1,
        ((e | flags) >> 6) & 1 == (e >> 6) & 1,
{
}

/// The all-zero entry is not present.
pub proof fn lemma_zero_entry()
    by (bit_vector)
    ensures
        !spec_entry_present(0),
        !spec_entry_huge(0),
        spec_entry_addr(0) == 0,
{
}

} // verus!
