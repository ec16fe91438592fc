//! The GPT + FAT32 read path: locating the boot partition and reading
//! files from it.

pub mod boot_sector;
pub mod directory;
pub mod fat;
pub mod gpt;
pub mod path;

use vstd::prelude::*;

use crate::block::BlockDevice;
use crate::fs::fat::Fat32FileSystem;
use crate::fs::gpt::{spec_guid_mixed, uuid_bytes, GuidedPartitionTable};

verus! {

/// A file's identity on the filesystem: its first cluster number.
#[derive(PartialEq, Eq, Structural, Clone, Copy, Debug)]
pub struct Inode(pub u64);

impl Inode {
    pub fn new(inode: u64) -> (r: Self)
        ensures
            r.0 == inode,
    {
        Self(inode)
    }

    pub fn as_u64(&self) -> (r: u64)
        ensures
            r == self.0,
    {
        self.0
    }
}

/// An opened file: its inode and its size in bytes.
#[derive(PartialEq, Eq, Structural, Clone, Copy, Debug)]
pub struct VirtualNode {
    pub inode: Inode,
    pub size: u64,
}

impl VirtualNode {
    pub fn new(inode: Inode, size: u64) -> (r: Self)
        ensures
            r.inode == inode,
            r.size == size,
    {
        Self { inode, size }
    }
}

/// When `device` holds the boot filesystem for the reported GUIDs: a
/// readable GPT whose disk GUID and first partition GUID match, and a
/// mountable FAT32 partition behind it.
pub open spec fn spec_boot_fs_present(
    disk: Seq<u8>,
    disk_id: uuid::Uuid,
    partition_id: uuid::Uuid,
) -> bool {
    let entry_base = crate::bits::le64_at(disk, 584) * 512;
    let partition_lba = crate::bits::le64_at(disk, entry_base + 32);
    &&& crate::fs::gpt::spec_gpt_readable(disk)
    &&& uuid_bytes(disk_id) == spec_guid_mixed(disk.subrange(568, 584))
    &&& uuid_bytes(partition_id) == spec_guid_mixed(
        disk.subrange(entry_base + 16, entry_base + 32),
    )
    &&& crate::fs::boot_sector::spec_boot_sector_readable(partition_lba, disk)
    &&& crate::fs::fat::spec_fat_area_readable(partition_lba, disk)
}

/// Mounts the boot filesystem of `device` exactly when its GPT carries
/// the disk and partition GUIDs the boot protocol reported and the
/// named partition mounts as FAT32.
pub fn find_boot_fs<D: BlockDevice>(
    device: &D,
    disk_id: &uuid::Uuid,
    partition_id: &uuid::Uuid,
) -> (r: Option<Fat32FileSystem>)
    ensures
        r is Some <==> spec_boot_fs_present(device.disk(), *disk_id, *partition_id),
        match r {
            Some(fs) => fs.wf() && fs.fat_area.start_sector == crate::bits::le64_at(
                device.disk(),
                crate::bits::le64_at(device.disk(), 584) * 512 + 32,
            ),
            None => true,
        },
{
    let gpt = match GuidedPartitionTable::read_from_disk(device) {
        Some(g) => g,
        None => {
            return None;
        },
    };
    if !gpt.matches_boot_partition(disk_id, partition_id) {
        return None;
    }
    Fat32FileSystem::read_from_disk(gpt.entry, device)
}

} // verus!
