//! The FAT32 boot sector: BIOS parameter block plus FAT32 extension.

use vstd::prelude::*;

use crate::bits::{le16_at, le32_at, read_le16, read_le32};
use crate::block::BlockDevice;
use crate::fs::gpt::{copy_bytes, GptPartitionEntry};

verus! {

/// The classic BIOS parameter block at the start of the boot sector.
#[derive(Clone, Debug)]
pub struct BiosParameterBlock {
    pub boot_jump: Vec<u8>,
    pub oem_identifier: Vec<u8>,
    pub bytes_per_sector: u16,
    pub sectors_per_cluster: u8,
    pub reserved_sectors: u16,
    pub fat_count: u8,
    pub root_directories_count: u16,
    pub total_sectors_in_logical_volume: u16,
    pub media_descriptor_type: u8,
    pub sectors_per_fat16: u16,
    pub sectors_per_track: u16,
    pub head_count: u16,
    pub hidden_sector_count: u32,
    pub large_sector_count: u32,
}

impl BiosParameterBlock {
    /// Decodes the block from the first bytes of the boot sector.
    pub fn parse(sector: &Vec<u8>) -> (r: BiosParameterBlock)
        requires
            sector@.len() >= 512,
        ensures
            r.boot_jump@ == sector@.subrange(0, 3),
            r.oem_identifier@ == sector@.subrange(3, 11),
            r.bytes_per_sector == le16_at(sector@, 11),
            r.sectors_per_cluster == sector@[13],
            r.reserved_sectors == le16_at(sector@, 14),
            r.fat_count == sector@[16],
            r.root_directories_count == le16_at(sector@, 17),
            r.total_sectors_in_logical_volume == le16_at(sector@, 19),
            r.media_descriptor_type == sector@[21],
            r.sectors_per_fat16 == le16_at(sector@, 22),
            r.sectors_per_track == le16_at(sector@, 24),
            r.head_count == le16_at(sector@, 26),
            r.hidden_sector_count == le32_at(sector@, 28),
            r.large_sector_count == le32_at(sector@, 32),
    {
        BiosParameterBlock {
            boot_jump: copy_bytes(sector, 0, 3),
            oem_identifier: copy_bytes(sector, 3, 8),
            bytes_per_sector: read_le16(sector, 11),
            sectors_per_cluster: sector[13],
            reserved_sectors: read_le16(sector, 14),
            fat_count: sector[16],
            root_directories_count: read_le16(sector, 17),
            total_sectors_in_logical_volume: read_le16(sector, 19),
            media_descriptor_type: sector[21],
            sectors_per_fat16: read_le16(sector, 22),
            sectors_per_track: read_le16(sector, 24),
            head_count: read_le16(sector, 26),
            hidden_sector_count: read_le32(sector, 28),
            large_sector_count: read_le32(sector, 32),
        }
    }

    pub fn bytes_per_sector(&self) -> (r: u16)
        ensures
            r == self.bytes_per_sector,
    {
        self.bytes_per_sector
    }

    pub fn reserved_sectors(&self) -> (r: u16)
        ensures
            r == self.reserved_sectors,
    {
        self.reserved_sectors
    }

    pub fn root_directories_count(&self) -> (r: u16)
        ensures
            r == self.root_directories_count,
    {
        self.root_directories_count
    }

    pub fn large_sector_count(&self) -> (r: u32)
        ensures
            r == self.large_sector_count,
    {
        self.large_sector_count
    }
}

/// Whether the boot sector of the partition starting at `lba` can be
/// read from `disk` at all.
pub open spec fn spec_boot_sector_readable(lba: int, disk: Seq<u8>) -> bool {
    &&& lba <= 0xFFFF_FFFF
    &&& disk.len() >= 512
    &&& lba <= (disk.len() - 512) / 512
}

/// The whole FAT32 boot sector.
#[derive(Clone, Debug)]
pub struct Fat32BootSector {
    pub bios_parameter_block: BiosParameterBlock,
    pub sectors_per_fat: u32,
    pub flags: u16,
    pub fat_version: u16,
    pub root_cluster_number: u32,
    pub fs_info_sector_number: u16,
    pub backup_boot_sector_number: u16,
    pub drive_number: u8,
    pub windows_nt_flags: u8,
    pub signature: u8,
    pub volume_id: u32,
    pub volume_label: Vec<u8>,
    pub system_identifier: Vec<u8>,
}

impl Fat32BootSector {
    /// Decodes the boot sector.
    pub fn parse(sector: &Vec<u8>) -> (r: Fat32BootSector)
        requires
            sector@.len() >= 512,
        ensures
            r.bios_parameter_block.bytes_per_sector == le16_at(sector@, 11),
            r.bios_parameter_block.sectors_per_cluster == sector@[13],
            r.bios_parameter_block.reserved_sectors == le16_at(sector@, 14),
            r.bios_parameter_block.fat_count == sector@[16],
            r.bios_parameter_block.root_directories_count == le16_at(sector@, 17),
            r.bios_parameter_block.large_sector_count == le32_at(sector@, 32),
            r.sectors_per_fat == le32_at(sector@, 36),
            r.flags == le16_at(sector@, 40),
            r.fat_version == le16_at(sector@, 42),
            r.root_cluster_number == le32_at(sector@, 44),
            r.fs_info_sector_number == le16_at(sector@, 48),
            r.backup_boot_sector_number == le16_at(sector@, 50),
            r.drive_number == sector@[64],
            r.signature == sector@[66],
            r.volume_id == le32_at(sector@, 67),
            r.volume_label@ == sector@.subrange(71, 82),
            r.system_identifier@ == sector@.subrange(82, 90),
    {
        Fat32BootSector {
            bios_parameter_block: BiosParameterBlock::parse(sector),
            sectors_per_fat: read_le32(sector, 36),
            flags: read_le16(sector, 40),
            fat_version: read_le16(sector, 42),
            root_cluster_number: read_le32(sector, 44),
            fs_info_sector_number: read_le16(sector, 48),
            backup_boot_sector_number: read_le16(sector, 50),
            drive_number: sector[64],
            windows_nt_flags: sector[65],
            signature: sector[66],
            volume_id: read_le32(sector, 67),
            volume_label: copy_bytes(sector, 71, 11),
            system_identifier: copy_bytes(sector, 82, 8),
        }
    }

    /// Reads the boot sector of the partition. `None` exactly when the
    /// sector lies beyond the device.
    pub fn read_from_disk<D: BlockDevice>(partition: &GptPartitionEntry, block_device: &D) -> (r:
        Option<Fat32BootSector>)
        ensures
            r is Some <==> spec_boot_sector_readable(
                partition.starting_lba as int,
                block_device.disk(),
            ),
            match r {
                Some(bs) => {
                    &&& partition.starting_lba * 512 + 512 <= block_device.disk().len()
                    &&& bs.bios_parameter_block.sectors_per_cluster == block_device.disk()[
                        partition.starting_lba * 512 + 13]
                    &&& bs.root_cluster_number == le32_at(
                        block_device.disk(),
                        partition.starting_lba * 512 + 44,
                    )
                    &&& bs.sectors_per_fat == le32_at(
                        block_device.disk(),
                        partition.starting_lba * 512 + 36,
                    )
                    &&& bs.bios_parameter_block.reserved_sectors == le16_at(
                        block_device.disk(),
                        partition.starting_lba * 512 + 14,
                    )
                    &&& bs.bios_parameter_block.bytes_per_sector == le16_at(
                        block_device.disk(),
                        partition.starting_lba * 512 + 11,
                    )
                    &&& bs.bios_parameter_block.fat_count == block_device.disk()[partition.starting_lba
                        * 512 + 16]
                },
                None => true,
            },
    {
        let size = block_device.disk_size();
        if partition.starting_lba > 0xFFFF_FFFF {
            return None;
        }
        let lba = partition.starting_lba as usize;
        if size < 512 || lba > (size - 512) / 512 {
            return None;
        }
        let mut buffer: Vec<u8> = crate::fs::gpt::new_zero_vec(512);
        block_device.read_block(lba, &mut buffer);
        Some(Fat32BootSector::parse(&buffer))
    }

    pub fn sectors_per_fat(&self) -> (r: u32)
        ensures
            r == self.sectors_per_fat,
    {
        self.sectors_per_fat
    }

    /// Sectors the root directory occupies; zero on FAT32, whose root
    /// lives in the data area.
    pub fn root_dir_sectors(&self) -> (r: u32)
        requires
            self.bios_parameter_block.bytes_per_sector >= 1,
        ensures
            r == ((self.bios_parameter_block.root_directories_count * 32) + (
            self.bios_parameter_block.bytes_per_sector - 1)) as int
                / self.bios_parameter_block.bytes_per_sector as int,
    {
        (((self.bios_parameter_block.root_directories_count as u32) * 32)
            + (self.bios_parameter_block.bytes_per_sector as u32 - 1))
            / self.bios_parameter_block.bytes_per_sector as u32
    }

    /// First sector of the data area, relative to the partition start:
    /// the reserved sectors plus every FAT copy. Data cluster `n` then
    /// starts `(n - 2) * sectors_per_cluster` sectors further on.
    pub fn first_data_sector(&self) -> (r: u64)
        ensures
            r == self.bios_parameter_block.reserved_sectors
                + self.bios_parameter_block.fat_count as int * self.sectors_per_fat as int,
    {
        let fc = self.bios_parameter_block.fat_count as u64;
        let spf = self.sectors_per_fat as u64;
        proof {
            assert(fc * spf <= 255 * 0xFFFF_FFFFu64) by (nonlinear_arith)
                requires
                    fc <= 255,
                    spf <= 0xFFFF_FFFF,
            ;
        }
        self.bios_parameter_block.reserved_sectors as u64 + fc * spf
    }

    /// First FAT sector, relative to the partition start.
    pub fn starting_fat_sector(&self) -> (r: u16)
        ensures
            r == self.bios_parameter_block.reserved_sectors,
    {
        self.bios_parameter_block.reserved_sectors
    }
}

} // verus!
