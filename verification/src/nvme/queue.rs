//! Submission and completion queue state: tail cursors, phase bits and
//! doorbell values. The DMA rings and the MMIO doorbells themselves
//! live outside; this model stamps commands and says which doorbell
//! value to write.

use vstd::prelude::*;

use crate::bits::{le16_at, le32_at, read_le16, read_le32, spec_get_bit_u16, spec_get_bits_u16};
use crate::nvme::command::NvmeCommand;

verus! {

/// Byte offset of a queue's doorbell from `base + 0x1000`:
/// `(qid * 2 + T) * (4 << CAP.DSTRD)`, with `T` 0 for submission and 1
/// for completion doorbells.
pub fn doorbell_offset(queue_id: u16, completion: bool, dstrd: u8) -> (r: u64)
    requires
        dstrd < 16,
    ensures
        r == ((queue_id as u64) * 2 + (if completion {
            1u64
        } else {
            0u64
        })) * ((4u64 << dstrd) as u64),
{
    let t: u64 = if completion {
        1
    } else {
        0
    };
    let stride: u64 = 4u64 << dstrd;
    proof {
        assert(4u64 << dstrd <= 0x4_0000) by (bit_vector)
            requires
                dstrd < 16,
        ;
        assert(((queue_id as u64) * 2 + t) * stride <= 0x2_0000u64 * 0x4_0000) by (nonlinear_arith)
            requires
                queue_id <= 0xFFFF,
                t <= 1,
                stride <= 0x4_0000,
        ;
    }
    ((queue_id as u64) * 2 + t) * stride
}

/// One side of a queue pair: its cursor and, for completion queues, the
/// phase the next entry must show.
#[derive(Debug, Clone, Copy, PartialEq, Eq, Structural)]
pub struct Queue {
    pub tail: u16,
    pub queue_size: u16,
    pub doorbell: u64,
    pub phase: bool,
}

impl Queue {
    /// Cursor within the ring.
    pub open spec fn wf(&self) -> bool {
        &&& self.queue_size >= 1
        &&& self.tail < self.queue_size
    }

    /// A fresh queue of `queue_size` slots whose doorbell sits at
    /// `doorbell` past the doorbell window base.
    pub fn new(queue_size: u16, doorbell: u64) -> (r: Queue)
        requires
            queue_size >= 1,
        ensures
            r.wf(),
            r.tail == 0,
            r.queue_size == queue_size,
            r.doorbell == doorbell,
            r.phase == true,
    {
        Queue { tail: 0, queue_size, doorbell, phase: true }
    }

    /// Stamps `command` with the slot it must be written to and
    /// advances the cursor. Returns the stamped command, the ring slot,
    /// and the doorbell value to write after the slot.
    pub fn submit_command(&mut self, command: NvmeCommand) -> (r: (NvmeCommand, u16, u16))
        requires
            old(self).wf(),
        ensures
            final(self).wf(),
            final(self).queue_size == old(self).queue_size,
            final(self).doorbell == old(self).doorbell,
            final(self).phase == old(self).phase,
            r.0 == (NvmeCommand { command_id: old(self).tail, ..command }),
            r.1 == old(self).tail,
            final(self).tail == (old(self).tail + 1) as u16 % old(self).queue_size,
            r.2 == final(self).tail,
    {
        let slot = self.tail;
        let mut stamped = command;
        stamped.command_id = slot;
        self.tail = (self.tail + 1) % self.queue_size;
        (stamped, slot, self.tail)
    }

    /// Whether a completion entry read from the current slot belongs to
    /// this pass over the ring: its phase bit equals the expected one.
    pub fn completion_ready(&self, completion: &NvmeCompletion) -> (r: bool)
        ensures
            r == (spec_get_bit_u16(completion.phase_status, 0) == self.phase),
    {
        completion.phase() == self.phase
    }

    /// Consumes one completion: advances the cursor, toggling the
    /// expected phase when the ring wraps. Returns the doorbell value.
    pub fn advance_completion(&mut self) -> (r: u16)
        requires
            old(self).wf(),
        ensures
            final(self).wf(),
            final(self).queue_size == old(self).queue_size,
            final(self).doorbell == old(self).doorbell,
            final(self).tail == (old(self).tail + 1) as u16 % old(self).queue_size,
            final(self).phase == if final(self).tail == 0 {
                !old(self).phase
            } else {
                old(self).phase
            },
            r == final(self).tail,
    {
        self.tail = (self.tail + 1) % self.queue_size;
        if self.tail == 0 {
            self.phase = !self.phase;
        }
        self.tail
    }
}

/// A submission queue with its completion queue.
#[derive(Debug, Clone, Copy, PartialEq, Eq, Structural)]
pub struct QueueGroup {
    pub submission: Queue,
    pub completion: Queue,
    pub queue_size: u16,
    pub queue_group_id: u16,
}

impl QueueGroup {
    pub open spec fn wf(&self) -> bool {
        self.submission.wf() && self.completion.wf()
    }

    /// A queue pair with id `queue_group_id`, its doorbells at the
    /// spacing `CAP.DSTRD` gives.
    pub fn new(queue_group_id: u16, queue_size: u16, dstrd: u8) -> (r: QueueGroup)
        requires
            queue_size >= 1,
            dstrd < 16,
        ensures
            r.wf(),
            r.queue_group_id == queue_group_id,
            r.queue_size == queue_size,
            r.submission.tail == 0 && r.completion.tail == 0,
            r.submission.doorbell == ((queue_group_id as u64) * 2) * ((4u64 << dstrd) as u64),
            r.completion.doorbell == ((queue_group_id as u64) * 2 + 1) * ((4u64 << dstrd) as u64),
    {
        let sq_doorbell = doorbell_offset(queue_group_id, false, dstrd);
        let cq_doorbell = doorbell_offset(queue_group_id, true, dstrd);
        QueueGroup {
            submission: Queue::new(queue_size, sq_doorbell),
            completion: Queue::new(queue_size, cq_doorbell),
            queue_size,
            queue_group_id,
        }
    }

    /// Stamps a command for this group's submission queue.
    pub fn submit_command(&mut self, command: NvmeCommand) -> (r: (NvmeCommand, u16, u16))
        requires
            old(self).wf(),
        ensures
            final(self).wf(),
            final(self).completion == old(self).completion,
            final(self).queue_size == old(self).queue_size,
            final(self).queue_group_id == old(self).queue_group_id,
            r.0 == (NvmeCommand { command_id: old(self).submission.tail, ..command }),
            r.1 == old(self).submission.tail,
            final(self).submission.tail == (old(self).submission.tail + 1) as u16 % old(
                self,
            ).submission.queue_size,
            r.2 == final(self).submission.tail,
    {
        self.submission.submit_command(command)
    }
}

/// One 16-byte completion-queue entry.
#[derive(Debug, Clone, Copy, PartialEq, Eq, Structural)]
pub struct NvmeCompletion {
    /// Command specific result.
    pub dw0: u32,
    /// Command specific result.
    pub dw1: u32,
    /// Submission queue head pointer.
    pub sq_head: u16,
    /// Submission queue identifier.
    pub sq_id: u16,
    /// Command id of the command that completed.
    pub command_id: u16,
    /// Phase bit and status field.
    pub phase_status: u16,
}

impl NvmeCompletion {
    /// Decodes a completion entry from its 16 bytes.
    pub fn parse(bytes: &Vec<u8>) -> (r: NvmeCompletion)
        requires
            bytes@.len() >= 16,
        ensures
            r.dw0 == le32_at(bytes@, 0),
            r.dw1 == le32_at(bytes@, 4),
            r.sq_head == le16_at(bytes@, 8),
            r.sq_id == le16_at(bytes@, 10),
            r.command_id == le16_at(bytes@, 12),
            r.phase_status == le16_at(bytes@, 14),
    {
        NvmeCompletion {
            dw0: read_le32(bytes, 0),
            dw1: read_le32(bytes, 4),
            sq_head: read_le16(bytes, 8),
            sq_id: read_le16(bytes, 10),
            command_id: read_le16(bytes, 12),
            phase_status: read_le16(bytes, 14),
        }
    }

    /// The 15-bit status field.
    pub fn status(&self) -> (r: u16)
        ensures
            r == spec_get_bits_u16(self.phase_status, 1, 16),
    {
        crate::bits::get_bits_u16(self.phase_status, 1, 16)
    }

    /// The phase bit.
    pub fn phase(&self) -> (r: bool)
        ensures
            r == spec_get_bit_u16(self.phase_status, 0),
    {
        crate::bits::get_bit_u16(self.phase_status, 0)
    }

    /// Whether the command succeeded: a zero status field.
    pub fn is_success(&self) -> (r: bool)
        ensures
            r == (spec_get_bits_u16(self.phase_status, 1, 16) == 0),
    {
        self.status() == 0
    }

    /// The status code proper, without its type bits.
    pub fn status_code(&self) -> (r: u16)
        ensures
            r == spec_get_bits_u16(self.phase_status, 1, 10),
    {
        crate::bits::get_bits_u16(self.phase_status, 1, 10)
    }
}

} // verus!
