//! GUID partition table: the header at LBA 1 and the boot partition
//! entry, with the mixed-endian GUIDs the format stores.

use vstd::prelude::*;

use crate::bits::{le16_at, le32_at, le64_at, read_le16, read_le32, read_le64};
use crate::block::BlockDevice;

verus! {

/// `uuid::Uuid` values cross this module's contracts; the type itself
/// stays opaque.
#[verifier::external_type_specification]
#[verifier::external_body]
pub struct ExUuid(uuid::Uuid);

/// The sixteen bytes a `uuid::Uuid` stores.
pub uninterp spec fn uuid_bytes(u: uuid::Uuid) -> Seq<u8>;

/// Relies on uuid::Uuid::from_fields: it stores d1, d2 and d3 in
/// big-endian byte order followed by d4 unchanged.
#[verifier::external_body]
fn uuid_from_fields(d1: u32, d2: u16, d3: u16, d4: &[u8; 8]) -> (r: uuid::Uuid)
    ensures
        uuid_bytes(r) == seq![
            (d1 >> 24) as u8,
            (d1 >> 16) as u8,
            (d1 >> 8) as u8,
            d1 as u8,
            (d2 >> 8) as u8,
            d2 as u8,
            (d3 >> 8) as u8,
            d3 as u8,
            d4@[0],
            d4@[1],
            d4@[2],
            d4@[3],
            d4@[4],
            d4@[5],
            d4@[6],
            d4@[7],
        ],
{
    uuid::Uuid::from_fields(d1, d2, d3, d4)
}

/// Relies on uuid::Uuid's derived equality: two values are equal exactly
/// when their sixteen stored bytes are.
#[verifier::external_body]
fn uuid_eq(a: &uuid::Uuid, b: &uuid::Uuid) -> (r: bool)
    ensures
        r == (uuid_bytes(*a) == uuid_bytes(*b)),
{
    a == b
}

/// How a GUID is laid out on disk: the first three fields little-endian,
/// the trailing eight bytes as they are. The result lists the bytes of
/// the textual (big-endian) form.
pub open spec fn spec_guid_mixed(b: Seq<u8>) -> Seq<u8> {
    seq![
        b[3],
        b[2],
        b[1],
        b[0],
        b[5],
        b[4],
        b[7],
        b[6],
        b[8],
        b[9],
        b[10],
        b[11],
        b[12],
        b[13],
        b[14],
        b[15],
    ]
}

/// Byte-swapping a 32-bit little-endian load yields the bytes reversed.
proof fn lemma_le32_swap(b0: u8, b1: u8, b2: u8, b3: u8, d: u32)
    by (bit_vector)
    requires
        d == b0 + b1 * 0x100 + b2 * 0x1_0000 + b3 * 0x100_0000,
    ensures
        (d >> 24) as u8 == b3,
        (d >> 16) as u8 == b2,
        (d >> 8) as u8 == b1,
        d as u8 == b0,
{
}

/// Byte-swapping a 16-bit little-endian load yields the bytes reversed.
proof fn lemma_le16_swap(b0: u8, b1: u8, d: u16)
    by (bit_vector)
    requires
        d == b0 + b1 * 0x100,
    ensures
        (d >> 8) as u8 == b1,
        d as u8 == b0,
{
}

/// The fixed header at LBA 1.
#[derive(Clone, Debug)]
pub struct GptHeader {
    pub signature: Vec<u8>,
    pub revision: u32,
    pub header_size: u32,
    pub header_crc32: u32,
    pub header_lba: u64,
    pub alternate_lba: u64,
    pub first_usable_lba: u64,
    pub last_usable_lba: u64,
    pub disk_guid: Vec<u8>,
    pub partition_entry_lba: u64,
    pub partition_entry_count: u32,
    pub partition_entry_size: u32,
    pub partition_entry_crc32: u32,
}

/// The bytes `E F I space P A R T`.
pub open spec fn spec_gpt_signature(b: Seq<u8>) -> bool {
    b.len() >= 8 && b[0] == 0x45 && b[1] == 0x46 && b[2] == 0x49 && b[3] == 0x20 && b[4] == 0x50
        && b[5] == 0x41 && b[6] == 0x52 && b[7] == 0x54
}

impl GptHeader {
    /// Decodes the header from the 512-byte sector at LBA 1; `None`
    /// exactly when the signature is not `EFI PART`.
    pub fn parse(sector: &Vec<u8>) -> (r: Option<GptHeader>)
        requires
            sector@.len() >= 512,
        ensures
            match r {
                Some(h) => {
                    &&& spec_gpt_signature(sector@)
                    &&& h.signature@ == sector@.subrange(0, 8)
                    &&& h.revision == le32_at(sector@, 8)
                    &&& h.header_size == le32_at(sector@, 12)
                    &&& h.header_crc32 == le32_at(sector@, 16)
                    &&& h.header_lba == le64_at(sector@, 24)
                    &&& h.alternate_lba == le64_at(sector@, 32)
                    &&& h.first_usable_lba == le64_at(sector@, 40)
                    &&& h.last_usable_lba == le64_at(sector@, 48)
                    &&& h.disk_guid@ == sector@.subrange(56, 72)
                    &&& h.partition_entry_lba == le64_at(sector@, 72)
                    &&& h.partition_entry_count == le32_at(sector@, 80)
                    &&& h.partition_entry_size == le32_at(sector@, 84)
                    &&& h.partition_entry_crc32 == le32_at(sector@, 88)
                },
                None => !spec_gpt_signature(sector@),
            },
    {
        if !(sector[0] == 0x45 && sector[1] == 0x46 && sector[2] == 0x49 && sector[3] == 0x20
            && sector[4] == 0x50 && sector[5] == 0x41 && sector[6] == 0x52 && sector[7] == 0x54) {
            return None;
        }
        let signature = copy_bytes(sector, 0, 8);
        let disk_guid = copy_bytes(sector, 56, 16);
        Some(
            GptHeader {
                signature,
                revision: read_le32(sector, 8),
                header_size: read_le32(sector, 12),
                header_crc32: read_le32(sector, 16),
                header_lba: read_le64(sector, 24),
                alternate_lba: read_le64(sector, 32),
                first_usable_lba: read_le64(sector, 40),
                last_usable_lba: read_le64(sector, 48),
                disk_guid,
                partition_entry_lba: read_le64(sector, 72),
                partition_entry_count: read_le32(sector, 80),
                partition_entry_size: read_le32(sector, 84),
                partition_entry_crc32: read_le32(sector, 88),
            },
        )
    }
}

/// Copies `len` bytes of `b` starting at `start`.
pub fn copy_bytes(b: &Vec<u8>, start: usize, len: usize) -> (r: Vec<u8>)
    requires
        start + len <= b@.len(),
    ensures
        r@ == b@.subrange(start as int, start + len),
{
    let _blen = b.len();
    let mut r: Vec<u8> = Vec::new();
    let mut i: usize = 0;
    while i < len
        invariant
            0 <= i <= len,
            start + len <= b@.len() <= usize::MAX,
            r@.len() == i,
            forall|j: int| 0 <= j < i ==> r@[j] == b@[start + j],
        decreases len - i,
    {
        r.push(b[start + i]);
        i = i + 1;
    }
    proof {
        assert(r@ =~= b@.subrange(start as int, start + len));
    }
    r
}

/// One 128-byte partition entry.
#[derive(Clone, Debug)]
pub struct GptPartitionEntry {
    pub partition_type_guid: Vec<u8>,
    pub unique_partition_guid: Vec<u8>,
    pub starting_lba: u64,
    pub ending_lba: u64,
    pub attributes: u64,
    pub partition_name: Vec<u16>,
}

impl GptPartitionEntry {
    /// Decodes a partition entry from the start of `sector`; the name is
    /// 36 UTF-16 little-endian units.
    pub fn parse(sector: &Vec<u8>) -> (r: GptPartitionEntry)
        requires
            sector@.len() >= 128,
        ensures
            r.partition_type_guid@ == sector@.subrange(0, 16),
            r.unique_partition_guid@ == sector@.subrange(16, 32),
            r.starting_lba == le64_at(sector@, 32),
            r.ending_lba == le64_at(sector@, 40),
            r.attributes == le64_at(sector@, 48),
            r.partition_name@.len() == 36,
            forall|k: int|
                0 <= k < 36 ==> r.partition_name@[k] == le16_at(sector@, 56 + 2 * k),
    {
        let partition_type_guid = copy_bytes(sector, 0, 16);
        let unique_partition_guid = copy_bytes(sector, 16, 16);
        let mut partition_name: Vec<u16> = Vec::new();
        let mut k: usize = 0;
        while k < 36
            invariant
                0 <= k <= 36,
                sector@.len() >= 128,
                partition_name@.len() == k,
                forall|j: int| 0 <= j < k ==> partition_name@[j] == le16_at(sector@, 56 + 2 * j),
            decreases 36 - k,
        {
            partition_name.push(read_le16(sector, 56 + 2 * k));
            k = k + 1;
        }
        GptPartitionEntry {
            partition_type_guid,
            unique_partition_guid,
            starting_lba: read_le64(sector, 32),
            ending_lba: read_le64(sector, 40),
            attributes: read_le64(sector, 48),
            partition_name,
        }
    }
}

/// When a GPT can be read from `disk` at all: the header sector and
/// its signature, and a partition-entry LBA inside both the device and
/// the model's 32-bit LBA cap.
pub open spec fn spec_gpt_readable(disk: Seq<u8>) -> bool {
    &&& disk.len() >= 1024
    &&& spec_gpt_signature(disk.subrange(512, 1024))
    &&& le64_at(disk, 584) <= 0xFFFF_FFFF
    &&& le64_at(disk, 584) <= (disk.len() - 512) / 512
}

/// The parsed GPT of a disk: its header and its first partition entry.
pub struct GuidedPartitionTable {
    pub header: GptHeader,
    pub entry: GptPartitionEntry,
}

impl GuidedPartitionTable {
    /// Reads LBA 1 and, when its signature holds, the first partition
    /// entry from `partition_entry_lba`. `None` exactly when the disk
    /// is too small, the signature is wrong, or the entry lies outside
    /// the device or the LBA cap.
    pub fn read_from_disk<D: BlockDevice>(block_device: &D) -> (r: Option<GuidedPartitionTable>)
        ensures
            r is Some <==> spec_gpt_readable(block_device.disk()),
            match r {
                Some(gpt) => {
                    &&& block_device.disk().len() >= 1024
                    &&& spec_gpt_signature(block_device.disk().subrange(512, 1024))
                    &&& gpt.header.signature@ == block_device.disk().subrange(512, 520)
                    &&& gpt.header.header_size == le32_at(block_device.disk(), 524)
                    &&& gpt.header.header_lba == le64_at(block_device.disk(), 536)
                    &&& gpt.header.disk_guid@ == block_device.disk().subrange(568, 584)
                    &&& gpt.header.partition_entry_lba == le64_at(block_device.disk(), 584)
                    &&& gpt.header.partition_entry_count == le32_at(block_device.disk(), 592)
                    &&& (gpt.header.partition_entry_lba * 512 + 512) <= block_device.disk().len()
                    &&& gpt.entry.starting_lba == le64_at(
                        block_device.disk(),
                        gpt.header.partition_entry_lba * 512 + 32,
                    )
                    &&& gpt.entry.partition_type_guid@ == block_device.disk().subrange(
                        gpt.header.partition_entry_lba * 512,
                        gpt.header.partition_entry_lba * 512 + 16,
                    )
                    &&& gpt.entry.unique_partition_guid@ == block_device.disk().subrange(
                        gpt.header.partition_entry_lba * 512 + 16,
                        gpt.header.partition_entry_lba * 512 + 32,
                    )
                },
                None => true,
            },
    {
        let size = block_device.disk_size();
        if size < 1024 {
            return None;
        }
        let mut buffer: Vec<u8> = new_zero_vec(512);
        block_device.read_block(1, &mut buffer);
        let header = match GptHeader::parse(&buffer) {
            Some(h) => h,
            None => {
                return None;
            },
        };
        let lba = header.partition_entry_lba;
        if lba > 0xFFFF_FFFF {
            return None;
        }
        let lba_us = lba as usize;
        if lba_us > (size - 512) / 512 {
            return None;
        }
        let mut ebuf: Vec<u8> = new_zero_vec(512);
        block_device.read_block(lba_us, &mut ebuf);
        let entry = GptPartitionEntry::parse(&ebuf);
        proof {
            assert(buffer@ =~= block_device.disk().subrange(512, 1024));
        }
        Some(GuidedPartitionTable { header, entry })
    }

    /// The GUID naming the whole disk.
    pub fn disk_guid(&self) -> (r: uuid::Uuid)
        requires
            self.header.disk_guid@.len() == 16,
        ensures
            uuid_bytes(r) == spec_guid_mixed(self.header.disk_guid@),
    {
        parse_guid(&self.header.disk_guid)
    }

    /// The GUID naming the partition instance.
    pub fn partition_guid(&self) -> (r: uuid::Uuid)
        requires
            self.entry.unique_partition_guid@.len() == 16,
        ensures
            uuid_bytes(r) == spec_guid_mixed(self.entry.unique_partition_guid@),
    {
        parse_guid(&self.entry.unique_partition_guid)
    }

    /// The GUID naming the partition's type.
    pub fn partition_type_guid(&self) -> (r: uuid::Uuid)
        requires
            self.entry.partition_type_guid@.len() == 16,
        ensures
            uuid_bytes(r) == spec_guid_mixed(self.entry.partition_type_guid@),
    {
        parse_guid(&self.entry.partition_type_guid)
    }

    /// Whether this is the boot partition: both the disk GUID and the
    /// partition GUID match what the boot protocol reported.
    pub fn matches_boot_partition(&self, disk_id: &uuid::Uuid, partition_id: &uuid::Uuid) -> (r:
        bool)
        requires
            self.header.disk_guid@.len() == 16,
            self.entry.unique_partition_guid@.len() == 16,
        ensures
            r == (uuid_bytes(*disk_id) == spec_guid_mixed(self.header.disk_guid@) && uuid_bytes(
                *partition_id,
            ) == spec_guid_mixed(self.entry.unique_partition_guid@)),
    {
        let dg = self.disk_guid();
        let pg = self.partition_guid();
        uuid_eq(disk_id, &dg) && uuid_eq(partition_id, &pg)
    }
}

/// Decodes a GPT mixed-endian GUID into a `uuid::Uuid`.
fn parse_guid(bytes: &Vec<u8>) -> (r: uuid::Uuid)
    requires
        bytes@.len() == 16,
    ensures
        uuid_bytes(r) == spec_guid_mixed(bytes@),
{
    let d1 = read_le32(bytes, 0);
    let d2 = read_le16(bytes, 4);
    let d3 = read_le16(bytes, 6);
    let d4: [u8; 8] = [
        bytes[8],
        bytes[9],
        bytes[10],
        bytes[11],
        bytes[12],
        bytes[13],
        bytes[14],
        bytes[15],
    ];
    proof {
        lemma_le32_swap(bytes@[0], bytes@[1], bytes@[2], bytes@[3], d1);
        lemma_le16_swap(bytes@[4], bytes@[5], d2);
        lemma_le16_swap(bytes@[6], bytes@[7], d3);
    }
    let r = uuid_from_fields(d1, d2, d3, &d4);
    proof {
        assert(uuid_bytes(r) =~= spec_guid_mixed(bytes@));
    }
    r
}

/// A vector of `len` zero bytes.
pub fn new_zero_vec(len: usize) -> (r: Vec<u8>)
    ensures
        r@.len() == len,
        forall|i: int| 0 <= i < len ==> r@[i] == 0,
{
    let mut r: Vec<u8> = Vec::new();
    let mut i: usize = 0;
    while i < len
        invariant
            r@.len() == i,
            0 <= i <= len,
            forall|j: int| 0 <= j < i ==> r@[j] == 0,
        decreases len - i,
    {
        r.push(0);
        i = i + 1;
    }
    r
}

} // verus!
