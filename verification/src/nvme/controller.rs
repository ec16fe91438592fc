//! NVMe controller register values and per-controller state.
//!
//! The registers themselves are MMIO; this model decodes and encodes
//! their values and keeps the controller's queues and namespaces. The
//! volatile loads and stores happen outside.

use vstd::prelude::*;

use crate::bits::{
    get_bit_u32, get_bit_u64, get_bits_u32, get_bits_u64, set_bit_u32, set_bits_u32,
    spec_get_bit_u32, spec_get_bit_u64, spec_get_bits_u32, spec_get_bits_u64, spec_set_bit_u32,
    spec_set_bits_u32,
};
use crate::memory::address::PhysicalAddress;
use crate::nvme::command::{IdentifyController, Namespace, NvmeCommand, NvmeIoCommand};
use crate::nvme::queue::QueueGroup;

verus! {

/// The command sets a controller supports, from `CAP.CSS`.
#[derive(Debug, Clone, Copy, PartialEq, Eq, Structural)]
pub enum CommandSetsSupported {
    Nvm,
    Io,
    Admin,
}

impl CommandSetsSupported {
    /// The value `CC.CSS` is programmed with for this set.
    pub open spec fn spec_value(&self) -> u32 {
        match self {
            CommandSetsSupported::Nvm => 0b000,
            CommandSetsSupported::Io => 0b001,
            CommandSetsSupported::Admin => 0b010,
        }
    }

    pub fn value(&self) -> (r: u32)
        ensures
            r == self.spec_value(),
    {
        match self {
            CommandSetsSupported::Nvm => 0b000,
            CommandSetsSupported::Io => 0b001,
            CommandSetsSupported::Admin => 0b010,
        }
    }
}

/// The 64-bit `CAP` register.
#[derive(Debug, Clone, Copy, PartialEq, Eq, Structural)]
pub struct Capabilities(pub u64);

impl Capabilities {
    /// `MQES`: the largest queue size, minus one.
    pub fn max_queue_entries(&self) -> (r: u16)
        ensures
            r == spec_get_bits_u64(self.0, 0, 16) as u16,
            r == spec_get_bits_u64(self.0, 0, 16),
    {
        proof {
            crate::bits::lemma_get_bits_u64_fits(self.0, 0, 16);
        }
        get_bits_u64(self.0, 0, 16) as u16
    }

    /// `CQR`: whether queues must be physically contiguous.
    pub fn contiguous_queues_required(&self) -> (r: bool)
        ensures
            r == spec_get_bit_u64(self.0, 16),
    {
        get_bit_u64(self.0, 16)
    }

    /// `DSTRD`: the doorbell stride exponent.
    pub fn doorbell_stride(&self) -> (r: u8)
        ensures
            r == spec_get_bits_u64(self.0, 32, 36),
            r < 16,
    {
        proof {
            crate::bits::lemma_get_bits_u64_fits(self.0, 32, 36);
        }
        get_bits_u64(self.0, 32, 36) as u8
    }

    /// `CSS`: the first supported command set, NVM preferred; `None`
    /// when the register names none the driver knows.
    pub fn command_sets_supported(&self) -> (r: Option<CommandSetsSupported>)
        ensures
            ({
                let sets = spec_get_bits_u64(self.0, 37, 45);
                match r {
                    Some(CommandSetsSupported::Nvm) => sets & 1 == 1,
                    Some(CommandSetsSupported::Io) => sets & 1 != 1 && sets & 0x40 == 0x40,
                    Some(CommandSetsSupported::Admin) => sets & 1 != 1 && sets & 0x40 != 0x40
                        && sets & 0x80 == 0x80,
                    None => sets & 1 != 1 && sets & 0x40 != 0x40 && sets & 0x80 != 0x80,
                }
            }),
    {
        let sets = get_bits_u64(self.0, 37, 45);
        if sets & 1 == 1 {
            Some(CommandSetsSupported::Nvm)
        } else if sets & 0x40 == 0x40 {
            Some(CommandSetsSupported::Io)
        } else if sets & 0x80 == 0x80 {
            Some(CommandSetsSupported::Admin)
        } else {
            None
        }
    }

    /// `MPSMIN`: the smallest supported memory page size exponent.
    pub fn memory_page_min_size(&self) -> (r: u8)
        ensures
            r == spec_get_bits_u64(self.0, 48, 52),
    {
        proof {
            crate::bits::lemma_get_bits_u64_fits(self.0, 48, 52);
        }
        get_bits_u64(self.0, 48, 52) as u8
    }
}

/// The 32-bit `VS` register.
#[derive(Debug, Clone, Copy, PartialEq, Eq, Structural)]
pub struct Version(pub u32);

impl Version {
    pub fn major(&self) -> (r: u8)
        ensures
            r == spec_get_bits_u32(self.0, 16, 24),
    {
        proof {
            crate::bits::lemma_get_bits_u32_fits(self.0, 16, 24);
        }
        get_bits_u32(self.0, 16, 24) as u8
    }

    pub fn minor(&self) -> (r: u8)
        ensures
            r == spec_get_bits_u32(self.0, 8, 16),
    {
        proof {
            crate::bits::lemma_get_bits_u32_fits(self.0, 8, 16);
        }
        get_bits_u32(self.0, 8, 16) as u8
    }

    pub fn tertiary(&self) -> (r: u8)
        ensures
            r == spec_get_bits_u32(self.0, 0, 8),
    {
        proof {
            crate::bits::lemma_get_bits_u32_fits(self.0, 0, 8);
        }
        get_bits_u32(self.0, 0, 8) as u8
    }
}

/// The 32-bit `CC` register.
#[derive(Debug, Clone, Copy, PartialEq, Eq, Structural)]
pub struct ControllerConfiguration(pub u32);

impl ControllerConfiguration {
    /// `EN`.
    pub fn is_enabled(&self) -> (r: bool)
        ensures
            r == spec_get_bit_u32(self.0, 0),
    {
        get_bit_u32(self.0, 0)
    }

    /// Sets or clears `EN`.
    pub fn set_enabled(&mut self, flag: bool)
        ensures
            final(self).0 == spec_set_bit_u32(old(self).0, 0, flag),
    {
        self.0 = set_bit_u32(self.0, 0, flag);
    }

    /// Programs `CSS` with the chosen command set; only legal while the
    /// controller is disabled.
    pub fn set_controller_command_set(&mut self, sets: CommandSetsSupported)
        requires
            !spec_get_bit_u32(old(self).0, 0),
        ensures
            final(self).0 == spec_set_bits_u32(old(self).0, 4, 7, sets.spec_value()),
    {
        let v = sets.value();
        proof {
            assert(v << ((32 - (7u32 - 4)) as u32) >> ((32 - (7u32 - 4)) as u32) == v)
                by (bit_vector)
                requires
                    v < 8,
            ;
        }
        self.0 = set_bits_u32(self.0, 4, 7, v);
    }

    /// Programs `AMS` with round-robin arbitration.
    pub fn set_arbitration_mechanism(&mut self)
        ensures
            final(self).0 == spec_set_bits_u32(old(self).0, 11, 14, 0),
    {
        let round_robin = 0u32;
        proof {
            assert(0u32 << ((32 - (14u32 - 11)) as u32) >> ((32 - (14u32 - 11)) as u32) == 0u32)
                by (bit_vector);
        }
        self.0 = set_bits_u32(self.0, 11, 14, round_robin);
    }

    /// Programs `IOSQES`, the submission entry size exponent.
    pub fn set_io_submission_queue_size(&mut self, size: u32)
        requires
            size < 16,
        ensures
            final(self).0 == spec_set_bits_u32(old(self).0, 16, 20, size),
    {
        proof {
            assert(size << ((32 - (20u32 - 16)) as u32) >> ((32 - (20u32 - 16)) as u32) == size)
                by (bit_vector)
                requires
                    size < 16,
            ;
        }
        self.0 = set_bits_u32(self.0, 16, 20, size);
    }

    /// Programs `IOCQES`, the completion entry size exponent.
    pub fn set_io_completion_queue_size(&mut self, size: u32)
        requires
            size < 16,
        ensures
            final(self).0 == spec_set_bits_u32(old(self).0, 20, 24, size),
    {
        proof {
            assert(size << ((32 - (24u32 - 20)) as u32) >> ((32 - (24u32 - 20)) as u32) == size)
                by (bit_vector)
                requires
                    size < 16,
            ;
        }
        self.0 = set_bits_u32(self.0, 20, 24, size);
    }
}

/// The 32-bit `CSTS` register.
#[derive(Debug, Clone, Copy, PartialEq, Eq, Structural)]
pub struct ControllerStatus(pub u32);

impl ControllerStatus {
    /// `RDY`.
    pub fn is_ready(&self) -> (r: bool)
        ensures
            r == spec_get_bit_u32(self.0, 0),
    {
        get_bit_u32(self.0, 0)
    }

    /// `CFS`.
    pub fn controller_fatal_status(&self) -> (r: bool)
        ensures
            r == spec_get_bit_u32(self.0, 1),
    {
        get_bit_u32(self.0, 1)
    }

    /// `SHST`.
    pub fn shutdown_status(&self) -> (r: u8)
        ensures
            r == spec_get_bits_u32(self.0, 2, 4),
    {
        proof {
            crate::bits::lemma_get_bits_u32_fits(self.0, 2, 4);
        }
        get_bits_u32(self.0, 2, 4) as u8
    }
}

/// Building `CC` from zero with field writes above bit 0 leaves the
/// enable bit clear at every step.
proof fn lemma_cc_build_disabled(css: u32)
    by (bit_vector)
    requires
        css < 8,
    ensures
        !spec_get_bit_u32(0, 0),
        !spec_get_bit_u32(spec_set_bits_u32(0, 4, 7, css), 0),
        !spec_get_bit_u32(spec_set_bits_u32(spec_set_bits_u32(0, 4, 7, css), 11, 14, 0), 0),
        !spec_get_bit_u32(
            spec_set_bits_u32(spec_set_bits_u32(spec_set_bits_u32(0, 4, 7, css), 11, 14, 0), 16, 20, 6),
            0,
        ),
        !spec_get_bit_u32(
            spec_set_bits_u32(
                spec_set_bits_u32(
                    spec_set_bits_u32(spec_set_bits_u32(0, 4, 7, css), 11, 14, 0),
                    16,
                    20,
                    6,
                ),
                20,
                24,
                4,
            ),
            0,
        ),
{
}

/// Ring length of both queues of every queue group this driver makes.
pub const CONTROLLER_QUEUE_SIZE: u16 = 5;

/// Byte offset from the controller base to the doorbell window.
pub const QUEUE_ADDR_OFFSET: u64 = 0x1000;

/// One NVMe controller: its MMIO base, its queue pairs and what
/// identify reported.
pub struct NvmeController {
    pub base_address: PhysicalAddress,
    pub admin_queue: QueueGroup,
    pub io_queue: QueueGroup,
    pub namespaces: Vec<Namespace>,
    pub identify_controller: Option<IdentifyController>,
}

impl NvmeController {
    pub open spec fn wf(&self) -> bool {
        &&& self.admin_queue.wf()
        &&& self.io_queue.wf()
    }

    /// A controller at `base_address` with admin queue pair 0 and I/O
    /// queue pair 1, nothing identified yet.
    pub fn new(base_address: PhysicalAddress, dstrd: u8) -> (r: NvmeController)
        requires
            dstrd < 16,
        ensures
            r.wf(),
            r.base_address == base_address,
            r.admin_queue.queue_group_id == 0,
            r.io_queue.queue_group_id == 1,
            r.admin_queue.queue_size == CONTROLLER_QUEUE_SIZE,
            r.io_queue.queue_size == CONTROLLER_QUEUE_SIZE,
            r.namespaces@.len() == 0,
            r.identify_controller is None,
    {
        NvmeController {
            base_address,
            admin_queue: QueueGroup::new(0, CONTROLLER_QUEUE_SIZE, dstrd),
            io_queue: QueueGroup::new(1, CONTROLLER_QUEUE_SIZE, dstrd),
            namespaces: Vec::new(),
            identify_controller: None,
        }
    }

    /// The `AQA` value for this controller's admin queues: both zero
    /// based sizes.
    pub fn admin_queue_attributes(&self) -> (r: u32)
        requires
            self.admin_queue.queue_size >= 1,
        ensures
            r == ((((self.admin_queue.queue_size - 1) as u32) << 16) | (((self.admin_queue.queue_size
                - 1)) as u32)),
    {
        let qs = (self.admin_queue.queue_size - 1) as u32;
        proof {
            assert((qs << 16 | qs) == ((qs << 16) | qs)) by (bit_vector);
        }
        (qs << 16) | qs
    }

    /// The register values the bring-up sequence programs after reset,
    /// in write order: `AQA` with both zero-based admin queue sizes,
    /// and `CC` built from zero with the chosen command set,
    /// round-robin arbitration and the 64/16-byte I/O entry sizes —
    /// still disabled, so `set_enabled` can follow.
    pub fn init_register_values(&self, sets: CommandSetsSupported) -> (r: (u32, u32))
        requires
            self.admin_queue.queue_size >= 1,
        ensures
            r.0 == ((((self.admin_queue.queue_size - 1) as u32) << 16) | (((
            self.admin_queue.queue_size - 1)) as u32)),
            r.1 == spec_set_bits_u32(
                spec_set_bits_u32(
                    spec_set_bits_u32(
                        spec_set_bits_u32(0, 4, 7, sets.spec_value()),
                        11,
                        14,
                        0,
                    ),
                    16,
                    20,
                    6,
                ),
                20,
                24,
                4,
            ),
            !spec_get_bit_u32(r.1, 0),
    {
        let aqa = self.admin_queue_attributes();
        let mut cc = ControllerConfiguration(0);
        proof {
            lemma_cc_build_disabled(sets.spec_value());
        }
        cc.set_controller_command_set(sets);
        cc.set_arbitration_mechanism();
        cc.set_io_submission_queue_size(6);
        cc.set_io_completion_queue_size(4);
        (aqa, cc.0)
    }

    /// Records what identify-controller reported.
    pub fn record_identify_controller(&mut self, identify: IdentifyController)
        ensures
            final(self).identify_controller == Some(identify),
            final(self).base_address == old(self).base_address,
            final(self).admin_queue == old(self).admin_queue,
            final(self).io_queue == old(self).io_queue,
            final(self).namespaces == old(self).namespaces,
    {
        self.identify_controller = Some(identify);
    }

    /// Records a namespace that identify-namespace reported live.
    pub fn record_namespace(&mut self, namespace: Namespace)
        ensures
            final(self).namespaces@ == old(self).namespaces@.push(namespace),
            final(self).base_address == old(self).base_address,
            final(self).admin_queue == old(self).admin_queue,
            final(self).io_queue == old(self).io_queue,
            final(self).identify_controller == old(self).identify_controller,
    {
        self.namespaces.push(namespace);
    }

    /// Builds and stamps the I/O command for a block read or write of
    /// `data_len` bytes at `sector` on the first namespace. Returns the
    /// stamped command, its ring slot, and the doorbell value.
    pub fn build_block_io(
        &mut self,
        opcode: NvmeIoCommand,
        sector: u32,
        dma_address: PhysicalAddress,
        data_len: usize,
    ) -> (r: Option<(NvmeCommand, u16, u16)>)
        requires
            old(self).wf(),
            1 <= data_len <= 0x100_0000,
        ensures
            final(self).wf(),
            final(self).namespaces == old(self).namespaces,
            r is Some <==> old(self).namespaces@.len() > 0 && 1 <= old(self).namespaces@[0].block_size
                <= 0x1_0000_0000 - 0x100_0000,
            r is None ==> *final(self) == *old(self),
            r is Some ==> old(self).namespaces@.len() > 0 && {
                let ns = old(self).namespaces@[0];
                &&& 1 <= ns.block_size <= 0x1_0000_0000 - 0x100_0000
                &&& r->Some_0.0 == (NvmeCommand {
                    command_id: old(self).io_queue.submission.tail,
                    ..NvmeCommand::spec_read_write_shape(
                        opcode,
                        sector,
                        dma_address,
                        data_len as int,
                        ns.block_size as int,
                        ns.namespace_id,
                    )
                })
            },
    {
        if self.namespaces.len() == 0 {
            return None;
        }
        let ns = self.namespaces[0];
        if ns.block_size < 1 || ns.block_size > 0x1_0000_0000 - 0x100_0000 {
            return None;
        }
        let command = NvmeCommand::create_read_write(
            opcode,
            sector,
            dma_address,
            data_len,
            ns.block_size as usize,
            ns.namespace_id,
        );
        Some(self.io_queue.submit_command(command))
    }
}

} // verus!
