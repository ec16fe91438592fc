//! NVMe command construction and identify-page decoding.

use vstd::prelude::*;

use crate::bits::{le16_at, le32_at, le64_at, read_le16, read_le32, read_le64};
use crate::fs::gpt::copy_bytes;
use crate::memory::address::PhysicalAddress;

verus! {

/// Admin opcode of Create I/O Submission Queue.
pub const NVME_ADMIN_CREATE_SUBMISSION_QUEUE: u8 = 0x01;

/// Admin opcode of Create I/O Completion Queue.
pub const NVME_ADMIN_CREATE_COMPLETION_QUEUE: u8 = 0x05;

/// Admin opcode of Identify.
pub const NVME_ADMIN_IDENTIFY: u8 = 0x06;

/// Which identify page an admin Identify command asks for.
#[derive(Debug, Clone, Copy, PartialEq, Eq, Structural)]
pub enum NvmeAdminIdentifyCns {
    IdentifyNamespace,
    IdentifyController,
    IdentifyNamespacesId,
}

impl NvmeAdminIdentifyCns {
    /// The CNS value the command carries.
    pub open spec fn spec_value(&self) -> u32 {
        match self {
            NvmeAdminIdentifyCns::IdentifyNamespace => 0x0,
            NvmeAdminIdentifyCns::IdentifyController => 0x1,
            NvmeAdminIdentifyCns::IdentifyNamespacesId => 0x2,
        }
    }

    pub fn value(&self) -> (r: u32)
        ensures
            r == self.spec_value(),
    {
        match self {
            NvmeAdminIdentifyCns::IdentifyNamespace => 0x0,
            NvmeAdminIdentifyCns::IdentifyController => 0x1,
            NvmeAdminIdentifyCns::IdentifyNamespacesId => 0x2,
        }
    }
}

/// The two NVM I/O opcodes the driver issues.
#[derive(Debug, Clone, Copy, PartialEq, Eq, Structural)]
pub enum NvmeIoCommand {
    Write,
    Read,
}

impl NvmeIoCommand {
    /// The opcode byte.
    pub open spec fn spec_opcode(&self) -> u8 {
        match self {
            NvmeIoCommand::Write => 0x1,
            NvmeIoCommand::Read => 0x2,
        }
    }

    pub fn opcode(&self) -> (r: u8)
        ensures
            r == self.spec_opcode(),
    {
        match self {
            NvmeIoCommand::Write => 0x1,
            NvmeIoCommand::Read => 0x2,
        }
    }
}

/// One 64-byte submission-queue entry.
#[derive(Debug, Clone, Copy, PartialEq, Eq, Structural)]
pub struct NvmeCommand {
    pub opcode: u8,
    pub flags: u8,
    pub command_id: u16,
    pub nsid: u32,
    pub metadata_ptr: u64,
    pub dptr0: u64,
    pub dptr1: u64,
    pub cdw10: u32,
    pub cdw11: u32,
    pub cdw12: u32,
    pub cdw13: u32,
    pub cdw14: u32,
    pub cdw15: u32,
}

impl NvmeCommand {
    /// The read/write command `create_read_write` builds, before the
    /// queue stamps a command id into it.
    pub open spec fn spec_read_write_shape(
        opcode: NvmeIoCommand,
        sector: u32,
        data_address: PhysicalAddress,
        data_len: int,
        block_size: int,
        nsid: u32,
    ) -> NvmeCommand {
        NvmeCommand {
            opcode: opcode.spec_opcode(),
            flags: 0,
            command_id: 0,
            nsid,
            metadata_ptr: 0,
            dptr0: data_address.0,
            dptr1: 0,
            cdw10: sector,
            cdw11: 0,
            cdw12: ((data_len + block_size - 1) / block_size - 1) as u32,
            cdw13: 0,
            cdw14: 0,
            cdw15: 0,
        }
    }

    /// An admin Identify command writing the page to `data_ptr`.
    pub fn create_identify(data_ptr: u64, cns: NvmeAdminIdentifyCns, namespace_id: u32) -> (r:
        NvmeCommand)
        ensures
            r.opcode == NVME_ADMIN_IDENTIFY,
            r.flags == 0,
            r.command_id == 0,
            r.nsid == namespace_id,
            r.metadata_ptr == 0,
            r.dptr0 == data_ptr,
            r.dptr1 == 0,
            r.cdw10 == cns.spec_value(),
            r.cdw11 == 0 && r.cdw12 == 0 && r.cdw13 == 0 && r.cdw14 == 0 && r.cdw15 == 0,
    {
        NvmeCommand {
            opcode: NVME_ADMIN_IDENTIFY,
            flags: 0,
            command_id: 0,
            nsid: namespace_id,
            metadata_ptr: 0,
            dptr0: data_ptr,
            dptr1: 0,
            cdw10: cns.value(),
            cdw11: 0,
            cdw12: 0,
            cdw13: 0,
            cdw14: 0,
            cdw15: 0,
        }
    }

    /// Create I/O Completion Queue: queue id and size in CDW10,
    /// physically contiguous in CDW11.
    pub fn create_completion_queue(address: PhysicalAddress, queue_id: u16, queue_size: u16) -> (r:
        NvmeCommand)
        ensures
            r.opcode == NVME_ADMIN_CREATE_COMPLETION_QUEUE,
            r.nsid == 0,
            r.dptr0 == address.0,
            r.dptr1 == 0,
            r.cdw10 == (queue_id as u32) | ((queue_size as u32) << 16),
            r.cdw11 == 1,
            r.command_id == 0 && r.flags == 0 && r.metadata_ptr == 0,
            r.cdw12 == 0 && r.cdw13 == 0 && r.cdw14 == 0 && r.cdw15 == 0,
    {
        let cdw10: u32 = (queue_id as u32) | ((queue_size as u32) << 16);
        NvmeCommand {
            opcode: NVME_ADMIN_CREATE_COMPLETION_QUEUE,
            flags: 0,
            command_id: 0,
            nsid: 0,
            metadata_ptr: 0,
            dptr0: address.0,
            dptr1: 0,
            cdw10,
            cdw11: 1,
            cdw12: 0,
            cdw13: 0,
            cdw14: 0,
            cdw15: 0,
        }
    }

    /// Create I/O Submission Queue, bound in CDW11 to the completion
    /// queue of the same id.
    pub fn create_submission_queue(address: PhysicalAddress, queue_id: u16, queue_size: u16) -> (r:
        NvmeCommand)
        ensures
            r.opcode == NVME_ADMIN_CREATE_SUBMISSION_QUEUE,
            r.nsid == 0,
            r.dptr0 == address.0,
            r.dptr1 == 0,
            r.cdw10 == (queue_id as u32) | ((queue_size as u32) << 16),
            r.cdw11 == 1u32 | ((queue_id as u32) << 16),
            r.command_id == 0 && r.flags == 0 && r.metadata_ptr == 0,
            r.cdw12 == 0 && r.cdw13 == 0 && r.cdw14 == 0 && r.cdw15 == 0,
    {
        NvmeCommand {
            opcode: NVME_ADMIN_CREATE_SUBMISSION_QUEUE,
            flags: 0,
            command_id: 0,
            nsid: 0,
            metadata_ptr: 0,
            dptr0: address.0,
            dptr1: 0,
            cdw10: (queue_id as u32) | ((queue_size as u32) << 16),
            cdw11: 1u32 | ((queue_id as u32) << 16),
            cdw12: 0,
            cdw13: 0,
            cdw14: 0,
            cdw15: 0,
        }
    }

    /// An NVM read or write of the blocks covering `data_len` bytes:
    /// the starting LBA in CDW10 and the zero-based block count in
    /// CDW12.
    pub fn create_read_write(
        opcode: NvmeIoCommand,
        sector: u32,
        data_address: PhysicalAddress,
        data_len: usize,
        block_size: usize,
        nsid: u32,
    ) -> (r: NvmeCommand)
        requires
            block_size >= 1,
            1 <= data_len,
            data_len + block_size <= 0x1_0000_0000,
        ensures
            r.opcode == opcode.spec_opcode(),
            r.nsid == nsid,
            r.dptr0 == data_address.0,
            r.dptr1 == 0,
            r.cdw10 == sector,
            r.cdw11 == 0,
            r.cdw12 == ((data_len as int + block_size as int - 1) / (block_size as int)
                - 1) as u32,
            r.command_id == 0 && r.flags == 0 && r.metadata_ptr == 0,
            r.cdw13 == 0 && r.cdw14 == 0 && r.cdw15 == 0,
    {
        let blocks = (data_len + (block_size - 1)) / block_size;
        proof {
            assert(blocks >= 1) by (nonlinear_arith)
                requires
                    blocks as int == (data_len as int + block_size as int - 1) / (
                    block_size as int),
                    block_size >= 1,
                    data_len >= 1,
            ;
        }
        NvmeCommand {
            opcode: opcode.opcode(),
            flags: 0,
            command_id: 0,
            nsid,
            metadata_ptr: 0,
            dptr0: data_address.0,
            dptr1: 0,
            cdw10: sector,
            cdw11: 0,
            cdw12: (blocks - 1) as u32,
            cdw13: 0,
            cdw14: 0,
            cdw15: 0,
        }
    }
}

/// The live namespace ids named by a prefix of the active-namespace
/// page: its 32-bit little-endian words up to `k`, zeros dropped.
pub open spec fn spec_nsid_list(page: Seq<u8>, k: int) -> Seq<u32>
    decreases k,
{
    if k <= 0 {
        Seq::empty()
    } else {
        let v = le32_at(page, 4 * (k - 1)) as u32;
        spec_nsid_list(page, k - 1) + if v != 0 {
            seq![v]
        } else {
            Seq::empty()
        }
    }
}

/// Decodes the identify active-namespace-id-list page: 1024 32-bit
/// little-endian ids, with zero entries (unused slots) dropped.
pub fn parse_namespace_list(page: &Vec<u8>) -> (r: Vec<u32>)
    requires
        page@.len() >= 4096,
    ensures
        r@ == spec_nsid_list(page@, 1024),
{
    let mut r: Vec<u32> = Vec::new();
    let mut k: usize = 0;
    while k < 1024
        invariant
            0 <= k <= 1024,
            page@.len() >= 4096,
            r@ == spec_nsid_list(page@, k as int),
        decreases 1024 - k,
    {
        let v = read_le32(page, 4 * k);
        if v != 0 {
            r.push(v);
        }
        proof {
            assert(spec_nsid_list(page@, k + 1) == spec_nsid_list(page@, k as int) + (if le32_at(
                page@,
                4 * (k as int),
            ) as u32 != 0 {
                seq![le32_at(page@, 4 * (k as int)) as u32]
            } else {
                Seq::<u32>::empty()
            }));
            assert(r@ =~= spec_nsid_list(page@, k + 1));
        }
        k = k + 1;
    }
    r
}

/// The serial-number field of the identify-controller page.
#[derive(Clone, Debug)]
pub struct SerialNumber {
    pub bytes: Vec<u8>,
}

/// Whether `b` is ASCII padding the serial field may carry.
pub open spec fn spec_is_padding(b: u8) -> bool {
    b == 0x20 || b == 0
}

impl SerialNumber {
    /// The serial with leading and trailing padding removed.
    pub fn trimmed(&self) -> (r: Vec<u8>)
        ensures
            exists|lo: int|
                0 <= lo && lo + r@.len() <= self.bytes@.len() && r@
                    == #[trigger] self.bytes@.subrange(lo, lo + r@.len()),
            r@.len() > 0 ==> !spec_is_padding(r@[0]) && !spec_is_padding(r@[r@.len() - 1]),
    {
        let n = self.bytes.len();
        let mut lo: usize = 0;
        while lo < n && (self.bytes[lo] == 0x20 || self.bytes[lo] == 0)
            invariant
                0 <= lo <= n,
                n == self.bytes@.len(),
            decreases n - lo,
        {
            lo = lo + 1;
        }
        let mut hi: usize = n;
        while hi > lo && (self.bytes[hi - 1] == 0x20 || self.bytes[hi - 1] == 0)
            invariant
                lo <= hi <= n,
                n == self.bytes@.len(),
            decreases hi,
        {
            hi = hi - 1;
        }
        let r = copy_bytes(&self.bytes, lo, hi - lo);
        proof {
            assert(0 <= lo as int && lo as int + r@.len() <= self.bytes@.len() && r@
                == self.bytes@.subrange(lo as int, lo as int + r@.len()));
        }
        r
    }
}

/// The fields of the identify-controller page the kernel reads.
#[derive(Clone, Debug)]
pub struct IdentifyController {
    pub vendor_id: u16,
    pub subsystem_vendor_id: u16,
    pub serial_number: SerialNumber,
    pub model_number: Vec<u8>,
    pub firmware_version: Vec<u8>,
    pub controller_id: u16,
    pub version: u32,
    pub number_of_namespaces: u32,
}

impl IdentifyController {
    /// Decodes the 4096-byte identify-controller page.
    pub fn parse(data: &Vec<u8>) -> (r: IdentifyController)
        requires
            data@.len() >= 4096,
        ensures
            r.vendor_id == le16_at(data@, 0),
            r.subsystem_vendor_id == le16_at(data@, 2),
            r.serial_number.bytes@ == data@.subrange(4, 24),
            r.model_number@ == data@.subrange(24, 64),
            r.firmware_version@ == data@.subrange(64, 72),
            r.controller_id == le16_at(data@, 78),
            r.version == le32_at(data@, 80),
            r.number_of_namespaces == le32_at(data@, 516),
    {
        IdentifyController {
            vendor_id: read_le16(data, 0),
            subsystem_vendor_id: read_le16(data, 2),
            serial_number: SerialNumber { bytes: copy_bytes(data, 4, 20) },
            model_number: copy_bytes(data, 24, 40),
            firmware_version: copy_bytes(data, 64, 8),
            controller_id: read_le16(data, 78),
            version: read_le32(data, 80),
            number_of_namespaces: read_le32(data, 516),
        }
    }
}

/// One LBA format descriptor of the identify-namespace page.
#[derive(Clone, Copy, Debug, PartialEq, Eq, Structural)]
pub struct LbaFormat {
    pub ms: u16,
    pub ds: u8,
    pub rp: u8,
}

/// The fields of the identify-namespace page the kernel reads.
#[derive(Clone, Debug)]
pub struct IdentifyNamespace {
    pub nsze: u64,
    pub ncap: u64,
    pub nuse: u64,
    pub nsfeat: u8,
    pub nlbaf: u8,
    pub flbas: u8,
    pub lbaf: Vec<LbaFormat>,
}

/// A live namespace: its id and geometry.
#[derive(Clone, Copy, Debug, PartialEq, Eq, Structural)]
pub struct Namespace {
    pub namespace_id: u32,
    pub blocks: u64,
    pub block_size: u64,
    pub size: u64,
}

impl IdentifyNamespace {
    /// Decodes the 4096-byte identify-namespace page.
    pub fn parse(data: &Vec<u8>) -> (r: IdentifyNamespace)
        requires
            data@.len() >= 4096,
        ensures
            r.nsze == le64_at(data@, 0),
            r.ncap == le64_at(data@, 8),
            r.nuse == le64_at(data@, 16),
            r.nsfeat == data@[24],
            r.nlbaf == data@[25],
            r.flbas == data@[26],
            r.lbaf@.len() == 16,
            forall|k: int|
                0 <= k < 16 ==> (#[trigger] r.lbaf@[k]).ms == le16_at(data@, 128 + 4 * k)
                    && r.lbaf@[k].ds == data@[128 + 4 * k + 2] && r.lbaf@[k].rp == data@[128 + 4 * k
                    + 3],
    {
        let mut lbaf: Vec<LbaFormat> = Vec::new();
        let mut k: usize = 0;
        while k < 16
            invariant
                0 <= k <= 16,
                data@.len() >= 4096,
                lbaf@.len() == k,
                forall|j: int|
                    0 <= j < k ==> (#[trigger] lbaf@[j]).ms == le16_at(data@, 128 + 4 * j)
                        && lbaf@[j].ds == data@[128 + 4 * j + 2] && lbaf@[j].rp == data@[128 + 4 * j
                        + 3],
            decreases 16 - k,
        {
            let _blen = data.len();
            lbaf.push(
                LbaFormat {
                    ms: read_le16(data, 128 + 4 * k),
                    ds: data[128 + 4 * k + 2],
                    rp: data[128 + 4 * k + 3],
                },
            );
            k = k + 1;
        }
        let _blen = data.len();
        IdentifyNamespace {
            nsze: read_le64(data, 0),
            ncap: read_le64(data, 8),
            nuse: read_le64(data, 16),
            nsfeat: data[24],
            nlbaf: data[25],
            flbas: data[26],
            lbaf,
        }
    }

    /// The namespace this page describes: block size `1 << ds` of the
    /// format `flbas` selects. `None` exactly when the page selects a
    /// format outside the table, a block size that cannot be
    /// represented, or a block count beyond the model's 32-bit cap.
    pub fn as_namespace(&self, namespace_id: u32) -> (r: Option<Namespace>)
        requires
            self.lbaf@.len() == 16,
        ensures
            r is Some <==> (self.flbas & 0x1f) < 16 && self.lbaf@[(self.flbas & 0x1f) as int].ds
                < 32 && self.nsze <= 0xFFFF_FFFF,
            match r {
                Some(ns) => {
                    &&& (self.flbas & 0x1f) < 16
                    &&& self.lbaf@[(self.flbas & 0x1f) as int].ds < 32
                    &&& ns.namespace_id == namespace_id
                    &&& ns.blocks == self.nsze
                    &&& ns.block_size == 1u64 << self.lbaf@[(self.flbas & 0x1f) as int].ds
                    &&& ns.size == ns.blocks * ns.block_size
                },
                None => true,
            },
    {
        let idx = self.flbas & 0x1f;
        if idx >= 16 {
            return None;
        }
        let ds = self.lbaf[idx as usize].ds;
        if ds >= 32 {
            return None;
        }
        let block_size: u64 = 1u64 << ds;
        proof {
            assert(1u64 << ds <= 0x1_0000_0000) by (bit_vector)
                requires
                    ds < 32,
            ;
        }
        if self.nsze > 0xFFFF_FFFF {
            return None;
        }
        let blocks = self.nsze;
        proof {
            assert(blocks * block_size <= 0xFFFF_FFFFu64 * 0x1_0000_0000) by (nonlinear_arith)
                requires
                    blocks <= 0xFFFF_FFFF,
                    block_size <= 0x1_0000_0000,
            ;
        }
        Some(Namespace { namespace_id, blocks, block_size, size: blocks * block_size })
    }
}

} // verus!
