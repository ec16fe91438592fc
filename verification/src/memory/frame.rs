//! 4 KiB physical frames.

use vstd::prelude::*;

use crate::memory::address::PhysicalAddress;

verus! {

/// Number of bytes in one physical frame.
pub const FRAME_SIZE: usize = 4096;

/// A 4 KiB-aligned physical frame, identified by its start address.
#[derive(Debug, Clone, Copy, PartialEq, Eq, Structural, Hash)]
pub struct PhysicalFrame {
    pub start_address: PhysicalAddress,
}

/// Whether `a` is the start address of a frame.
pub open spec fn spec_frame_aligned(a: u64) -> bool {
    a % 4096 == 0
}

impl PhysicalFrame {
    /// The frame whose 4 KiB span contains `address`.
    pub fn containing_address(address: PhysicalAddress) -> (r: Self)
        ensures
            r.start_address.0 == address.0 / 4096 * 4096,
            spec_frame_aligned(r.start_address.0),
    {
        Self { start_address: address.align_down(FRAME_SIZE as u64) }
    }

    pub fn size() -> (r: u64)
        ensures
            r == FRAME_SIZE,
    {
        FRAME_SIZE as u64
    }

    /// Iterator over every frame whose start lies in `[start, end]`.
    pub fn range_inclusive(start: PhysicalFrame, end: PhysicalFrame) -> (r: PhysicalFrameIter)
        ensures
            r.start == start,
            r.end == end,
    {
        PhysicalFrameIter { start, end }
    }
}

/// Walks frames from `start` up to and including `end`.
#[derive(Clone, Copy, PartialEq, Eq, Structural, Hash)]
pub struct PhysicalFrameIter {
    pub start: PhysicalFrame,
    pub end: PhysicalFrame,
}

impl PhysicalFrameIter {
    /// The next frame of the range, stepping `start` forward 4 KiB.
    pub fn next(&mut self) -> (r: Option<PhysicalFrame>)
        requires
            old(self).start.start_address.0 + 4096 <= u64::MAX,
        ensures
            final(self).end == old(self).end,
            if old(self).start.start_address.0 <= old(self).end.start_address.0 {
                r == Some(old(self).start)
                    && final(self).start.start_address.0 == old(self).start.start_address.0 + 4096
            } else {
                r == None::<PhysicalFrame> && final(self).start == old(self).start
            },
    {
        if self.start.start_address.0 <= self.end.start_address.0 {
            let frame = self.start;
            self.start = PhysicalFrame {
                start_address: PhysicalAddress(frame.start_address.0 + FRAME_SIZE as u64),
            };
            Some(frame)
        } else {
            None
        }
    }
}

} // verus!
