//! The FAT32 filesystem: in-memory FAT, cluster chains, directory walk
//! and file read.

use vstd::prelude::*;

use crate::bits::{le16_at, le32_at};
use crate::block::BlockDevice;
use crate::fs::boot_sector::Fat32BootSector;
use crate::fs::directory::{
    entry_matches, eq_ignore_ascii_case, spec_eq_ignore_case, DirectoryEntry,
};
use crate::fs::gpt::{new_zero_vec, GptPartitionEntry};
use crate::fs::path::Path;
use crate::fs::{Inode, VirtualNode};

verus! {

/// FAT32 end-of-chain marker: any entry at or above this value.
pub const FAT32_EOC: u32 = 0x0FFFFFF8;

/// The 28-bit FAT entry of cluster `c`.
pub open spec fn fat_entry(fat: Seq<u8>, c: int) -> u32 {
    (le32_at(fat, 4 * c) as u32) & 0x0FFF_FFFF
}

/// One step of the chain walk from cluster `c`: the successor state and
/// what the iterator yields. The chain ends at an end-of-chain marker
/// and at an entry outside the in-memory FAT.
pub open spec fn cluster_step(fat: Seq<u8>, c: u32) -> (u32, Option<u32>) {
    if c >= FAT32_EOC || 4 * c + 4 > fat.len() {
        (c, None)
    } else {
        (fat_entry(fat, c as int), Some(c))
    }
}

/// Walks a cluster chain through the in-memory FAT.
pub struct FatClusterIterator {
    pub current_cluster: u32,
}

impl FatClusterIterator {
    /// Yields the current cluster and follows its FAT entry.
    pub fn next(&mut self, fat_area: &FatArea) -> (r: Option<u32>)
        ensures
            (final(self).current_cluster, r) == cluster_step(
                fat_area.fat@,
                old(self).current_cluster,
            ),
    {
        let c = self.current_cluster;
        if c >= FAT32_EOC {
            return None;
        }
        let flen = fat_area.fat.len();
        if c > 0x3FFF_FFFF || 4 * (c as usize) + 4 > flen {
            return None;
        }
        let off = 4 * (c as usize);
        let next = crate::bits::read_le32(&fat_area.fat, off) & 0x0FFF_FFFF;
        self.current_cluster = next;
        proof {
            assert((le32_at(fat_area.fat@, 4 * c) as u32) & 0x0FFF_FFFF == fat_entry(
                fat_area.fat@,
                c as int,
            ));
        }
        Some(c)
    }
}

/// A chain that starts at a cluster whose FAT entry is an end-of-chain
/// marker yields that cluster and then nothing.
pub proof fn lemma_chain_stops_at_eoc(fat: Seq<u8>, c: u32)
    requires
        c < FAT32_EOC,
        4 * c + 4 <= fat.len(),
        fat_entry(fat, c as int) >= FAT32_EOC,
    ensures
        cluster_step(fat, c) == (fat_entry(fat, c as int), Some(c)),
        cluster_step(fat, cluster_step(fat, c).0).1 == None::<u32>,
{
}

/// The FAT area of a mounted filesystem: its geometry and an in-memory
/// copy of the first FAT.
pub struct FatArea {
    /// Absolute sector of the partition start.
    pub start_sector: u64,
    /// Bytes per sector; the read path works in 512-byte sectors.
    pub sector_size: u64,
    /// First FAT sector, relative to the partition.
    pub fat_start_sector: u64,
    pub sectors_per_fat: u64,
    /// First data sector, relative to the partition.
    pub first_data_sector: u64,
    /// Sectors per data cluster.
    pub sectors_per_cluster: u64,
    /// The FAT, read into memory.
    pub fat: Vec<u8>,
}

/// The geometry conditions under which a FAT area can be mounted from
/// `disk`: 512-byte sectors, a cluster size, and a FAT that fits the
/// device within the model's address caps.
pub open spec fn spec_fat_area_readable(partition_lba: int, disk: Seq<u8>) -> bool {
    let base = partition_lba * 512;
    let reserved = le16_at(disk, base + 14);
    let spf = le32_at(disk, base + 36);
    &&& le16_at(disk, base + 11) == 512
    &&& disk[base + 13] != 0
    &&& reserved + disk[base + 16] * spf <= 0x100_0000_0000
    &&& partition_lba <= 0xFFFF_FFFF
    &&& spf <= 0x10_0000
    &&& partition_lba + reserved <= 0xFFF_FFFF
    &&& (partition_lba + reserved + spf) * 512 <= disk.len()
}

impl FatArea {
    /// Reads the whole FAT into memory. `None` exactly when the sector
    /// size is not 512, the cluster size is zero, or the FAT would not
    /// fit the device or the model's address caps.
    pub fn read_from_disk<D: BlockDevice>(
        partition: &GptPartitionEntry,
        boot_sector: &Fat32BootSector,
        block_device: &D,
    ) -> (r: Option<FatArea>)
        requires
            // the decoded boot sector of this partition
            partition.starting_lba * 512 + 512 <= block_device.disk().len(),
            boot_sector.bios_parameter_block.bytes_per_sector == le16_at(
                block_device.disk(),
                partition.starting_lba * 512 + 11,
            ),
            boot_sector.bios_parameter_block.sectors_per_cluster == block_device.disk()[
                partition.starting_lba * 512 + 13],
            boot_sector.bios_parameter_block.reserved_sectors == le16_at(
                block_device.disk(),
                partition.starting_lba * 512 + 14,
            ),
            boot_sector.bios_parameter_block.fat_count == block_device.disk()[
                partition.starting_lba * 512 + 16],
            boot_sector.sectors_per_fat == le32_at(
                block_device.disk(),
                partition.starting_lba * 512 + 36,
            ),
        ensures
            r is Some <==> spec_fat_area_readable(
                partition.starting_lba as int,
                block_device.disk(),
            ),
            match r {
                Some(a) => {
                    &&& a.wf()
                    &&& a.start_sector == partition.starting_lba
                    &&& a.sector_size == 512
                    &&& a.fat_start_sector == boot_sector.bios_parameter_block.reserved_sectors
                    &&& a.sectors_per_fat == boot_sector.sectors_per_fat
                    &&& a.sectors_per_cluster
                        == boot_sector.bios_parameter_block.sectors_per_cluster
                    &&& a.first_data_sector == boot_sector.bios_parameter_block.reserved_sectors
                        + boot_sector.bios_parameter_block.fat_count as int
                        * boot_sector.sectors_per_fat as int
                    &&& a.fat@.len() == boot_sector.sectors_per_fat * 512
                    &&& a.fat@ == block_device.disk().subrange(
                        (partition.starting_lba + boot_sector.bios_parameter_block.reserved_sectors)
                            * 512,
                        (partition.starting_lba + boot_sector.bios_parameter_block.reserved_sectors
                            + boot_sector.sectors_per_fat) * 512,
                    )
                },
                None => true,
            },
    {
        if boot_sector.bios_parameter_block.bytes_per_sector() != 512 {
            return None;
        }
        let sectors_per_cluster = boot_sector.bios_parameter_block.sectors_per_cluster;
        if sectors_per_cluster == 0 {
            return None;
        }
        let start_sector = partition.starting_lba;
        let fat_start_sector = boot_sector.bios_parameter_block.reserved_sectors() as u64;
        let sectors_per_fat = boot_sector.sectors_per_fat() as u64;
        let first_data_sector = boot_sector.first_data_sector();
        if first_data_sector > 0x100_0000_0000 {
            return None;
        }
        let size = block_device.disk_size() as u64;
        if start_sector > 0xFFFF_FFFF || sectors_per_fat > 0x10_0000 {
            return None;
        }
        let fat_base = start_sector + fat_start_sector;
        if fat_base > 0xFFF_FFFF {
            return None;
        }
        if (fat_base + sectors_per_fat) * 512 > size {
            return None;
        }
        let mut fat: Vec<u8> = Vec::new();
        let mut i: u64 = 0;
        while i < sectors_per_fat
            invariant
                0 <= i <= sectors_per_fat,
                fat_base == start_sector + fat_start_sector,
                (fat_base + sectors_per_fat) * 512 <= block_device.disk().len(),
                fat_base <= 0xFFF_FFFF,
                sectors_per_fat <= 0x10_0000,
                fat@.len() == i * 512,
                fat@ == block_device.disk().subrange(
                    fat_base * 512,
                    (fat_base + i) * 512,
                ),
            decreases sectors_per_fat - i,
        {
            let mut buffer: Vec<u8> = new_zero_vec(512);
            let sector = (fat_base + i) as usize;
            block_device.read_block(sector, &mut buffer);
            let ghost fat0 = fat@;
            let mut k: usize = 0;
            while k < 512
                invariant
                    0 <= k <= 512,
                    buffer@.len() == 512,
                    fat@ == fat0 + buffer@.subrange(0, k as int),
                decreases 512 - k,
            {
                fat.push(buffer[k]);
                proof {
                    assert(fat@ =~= fat0 + buffer@.subrange(0, k + 1));
                }
                k = k + 1;
            }
            proof {
                assert(buffer@.subrange(0, 512) =~= buffer@);
                assert(sector as int == fat_base + i);
                assert(buffer@ == block_device.disk().subrange(
                    (fat_base + i) * 512,
                    (fat_base + i) * 512 + 512,
                ));
                assert(fat@ =~= block_device.disk().subrange(
                    fat_base * 512,
                    (fat_base + i + 1) * 512,
                ));
            }
            i = i + 1;
        }
        Some(
            FatArea {
                start_sector,
                sector_size: 512,
                fat_start_sector,
                sectors_per_fat,
                first_data_sector,
                sectors_per_cluster: sectors_per_cluster as u64,
                fat,
            },
        )
    }

    /// Bounds every sector computation relies on.
    pub open spec fn wf(&self) -> bool {
        &&& self.start_sector <= 0xFFFF_FFFF
        &&& self.first_data_sector <= 0x100_0000_0000
        &&& 1 <= self.sectors_per_cluster <= 255
    }

    /// An iterator over the chain that starts at `cluster`.
    pub fn cluster_chain_iter(&self, cluster: u32) -> (r: FatClusterIterator)
        ensures
            r.current_cluster == cluster,
    {
        FatClusterIterator { current_cluster: cluster }
    }

    /// The absolute sector where data cluster `cluster` starts:
    /// `sectors_per_cluster` sectors per cluster past the data area.
    pub fn data_sector(&self, cluster: u32) -> (r: Option<u64>)
        requires
            self.wf(),
        ensures
            match r {
                Some(s) => cluster >= 2 && s == self.start_sector + self.first_data_sector + (
                cluster - 2) * self.sectors_per_cluster,
                None => cluster < 2,
            },
    {
        if cluster < 2 {
            return None;
        }
        proof {
            assert((cluster - 2) * self.sectors_per_cluster <= 0xFFFF_FFFF * 255u64)
                by (nonlinear_arith)
                requires
                    cluster <= 0xFFFF_FFFF,
                    self.sectors_per_cluster <= 255,
                    cluster >= 2,
            ;
        }
        Some(
            self.start_sector + self.first_data_sector + (cluster as u64 - 2)
                * self.sectors_per_cluster,
        )
    }
}

/// Steps the walker can take, as a pure function of its state, the
/// FAT area and the disk: `Some` carries the record location (sector
/// bytes, byte offset) and the successor state (sector, offset,
/// cluster); `None` ends the walk — at a deleted record, the
/// end-of-directory marker, the end of the chain, a cluster below 2,
/// or a sector beyond the device.
pub open spec fn walker_outcome(
    sector: Seq<u8>,
    offset: int,
    cluster: u32,
    area: FatArea,
    disk: Seq<u8>,
) -> Option<((Seq<u8>, int), (Seq<u8>, int, u32))> {
    if offset < 512 {
        if sector[offset] != 0xE5 && sector[offset] != 0 {
            Some(((sector, offset), (sector, offset + 32, cluster)))
        } else {
            None
        }
    } else {
        let step = cluster_step(area.fat@, cluster);
        if step.1 is None {
            None
        } else {
            let c = step.1->Some_0;
            if c < 2 {
                None
            } else {
                let lba = area.start_sector + area.first_data_sector + (c - 2)
                    * area.sectors_per_cluster;
                if lba > 0xFFFF_FFFF || (lba + 1) * 512 > disk.len() {
                    None
                } else {
                    let sec = disk.subrange(512 * lba, 512 * lba + 512);
                    if sec[0] != 0xE5 && sec[0] != 0 {
                        Some(((sec, 0), (sec, 32, step.0)))
                    } else {
                        None
                    }
                }
            }
        }
    }
}

/// The 8.3 name, dot included, of the record at `off` of `sector`.
pub open spec fn spec_record_name(sector: Seq<u8>, off: int) -> Seq<u8> {
    let name = crate::fs::directory::spec_fmt_name(sector, off, off + 8);
    let ext = crate::fs::directory::spec_fmt_name(sector, off + 8, off + 11);
    if ext.len() == 0 {
        name
    } else {
        name + seq![0x2eu8] + ext
    }
}

/// Walks the directory entries of a cluster chain, sector by sector.
pub struct DirectoryWalker {
    pub sector: Vec<u8>,
    pub sector_offset: usize,
    pub cluster_iter: FatClusterIterator,
}

impl DirectoryWalker {
    /// The sector is full-sized while entries remain unread in it.
    pub open spec fn wf(&self) -> bool {
        &&& self.sector_offset <= 512
        &&& self.sector_offset % 32 == 0
        &&& (self.sector_offset < 512 ==> self.sector@.len() == 512)
    }

    /// A walker at the start of the chain of `cluster`.
    pub fn new(cluster: u32, fat_area: &FatArea) -> (r: DirectoryWalker)
        ensures
            r.wf(),
            r.cluster_iter.current_cluster == cluster,
            r.sector_offset == 512,
            r.sector@ == Seq::<u8>::empty(),
    {
        DirectoryWalker {
            sector: Vec::new(),
            sector_offset: 512,
            cluster_iter: fat_area.cluster_chain_iter(cluster),
        }
    }

    /// The next raw entry: the 32 bytes at the walker's position, with
    /// `None` for a deleted entry, the end-of-directory marker, or the
    /// end of the chain. A fresh sector is read when the previous one is
    /// exhausted. The step is exactly `walker_outcome` of the walker's
    /// state.
    pub fn next<D: BlockDevice>(&mut self, fat_area: &FatArea, block_device: &D) -> (r: Option<
        DirectoryEntry,
    >)
        requires
            old(self).wf(),
            fat_area.wf(),
        ensures
            final(self).wf(),
            ({
                let outcome = walker_outcome(
                    old(self).sector@,
                    old(self).sector_offset as int,
                    old(self).cluster_iter.current_cluster,
                    *fat_area,
                    block_device.disk(),
                );
                match outcome {
                    Some(o) => {
                        &&& r is Some
                        &&& entry_matches(r, o.0.0, o.0.1)
                        &&& final(self).sector@ == o.1.0
                        &&& final(self).sector_offset == o.1.1
                        &&& final(self).cluster_iter.current_cluster == o.1.2
                    },
                    None => r is None,
                }
            }),
    {
        if self.sector_offset >= 512 {
            match self.cluster_iter.next(fat_area) {
                Some(cluster) => {
                    let sector_lba = match fat_area.data_sector(cluster) {
                        Some(s) => s,
                        None => {
                            return None;
                        },
                    };
                    let size = block_device.disk_size() as u64;
                    if sector_lba > 0xFFFF_FFFF || (sector_lba + 1) * 512 > size {
                        return None;
                    }
                    let mut buffer: Vec<u8> = new_zero_vec(512);
                    block_device.read_block(sector_lba as usize, &mut buffer);
                    self.sector = buffer;
                    self.sector_offset = 0;
                },
                None => {
                    return None;
                },
            }
        }
        let entry = DirectoryEntry::from_sector(&self.sector, self.sector_offset);
        self.sector_offset = self.sector_offset + 32;
        entry
    }
}

/// Steps a directory walk or a file read may take before a cyclic
/// FAT chain is declared hopeless.
pub const DIR_WALK_BUDGET: usize = 0x10_0000;

/// The first record matching `name` (ignoring ASCII case) that a
/// bounded walk from the given walker state reaches: its sector bytes
/// and offset.
pub open spec fn spec_find_in_dir(
    sector: Seq<u8>,
    offset: int,
    cluster: u32,
    area: FatArea,
    disk: Seq<u8>,
    name: Seq<u8>,
    budget: nat,
) -> Option<(Seq<u8>, int)>
    decreases budget,
{
    if budget == 0 {
        None
    } else {
        match walker_outcome(sector, offset, cluster, area, disk) {
            None => None,
            Some(o) => if spec_eq_ignore_case(spec_record_name(o.0.0, o.0.1), name) {
                Some(o.0)
            } else {
                spec_find_in_dir(o.1.0, o.1.1, o.1.2, area, disk, name, (budget - 1) as nat)
            },
        }
    }
}

/// Resolves path components `i..` starting in the directory at
/// `cluster`: each component is looked up in turn, descending into the
/// cluster its record names; the record of the last component is the
/// result.
pub open spec fn spec_resolve_path(
    components: Seq<Seq<u8>>,
    i: int,
    cluster: u32,
    area: FatArea,
    disk: Seq<u8>,
) -> Option<(Seq<u8>, int)>
    decreases components.len() - i,
{
    if i < 0 || i >= components.len() {
        None
    } else {
        match spec_find_in_dir(
            Seq::empty(),
            512,
            cluster,
            area,
            disk,
            components[i],
            DIR_WALK_BUDGET as nat,
        ) {
            None => None,
            Some(loc) => if i == components.len() - 1 {
                Some(loc)
            } else {
                spec_resolve_path(
                    components,
                    i + 1,
                    crate::fs::directory::spec_cluster(
                        le16_at(loc.0, loc.1 + 20) as u16,
                        le16_at(loc.0, loc.1 + 26) as u16,
                    ),
                    area,
                    disk,
                )
            },
        }
    }
}

/// The bytes a bounded read yields from the chain at `cluster` after
/// skipping `skip` clusters: whole 512-byte cluster sectors, the last
/// cut to `remaining`.
pub open spec fn spec_file_bytes(
    cluster: u32,
    skip: int,
    remaining: int,
    area: FatArea,
    disk: Seq<u8>,
    budget: nat,
) -> Seq<u8>
    decreases budget,
{
    if budget == 0 || remaining <= 0 {
        Seq::empty()
    } else {
        let step = cluster_step(area.fat@, cluster);
        if step.1 is None {
            Seq::empty()
        } else if skip > 0 {
            spec_file_bytes(step.0, skip - 1, remaining, area, disk, (budget - 1) as nat)
        } else {
            let c = step.1->Some_0;
            if c < 2 {
                Seq::empty()
            } else {
                let lba = area.start_sector + area.first_data_sector + (c - 2)
                    * area.sectors_per_cluster;
                if lba > 0xFFFF_FFFF || (lba + 1) * 512 > disk.len() {
                    Seq::empty()
                } else {
                    let chunk = if remaining < 512 {
                        disk.subrange(512 * lba, 512 * lba + remaining)
                    } else {
                        disk.subrange(512 * lba, 512 * lba + 512)
                    };
                    chunk + spec_file_bytes(
                        step.0,
                        0,
                        remaining - chunk.len(),
                        area,
                        disk,
                        (budget - 1) as nat,
                    )
                }
            }
        }
    }
}

/// Masking a cluster word to FAT32's 28 significant bits bounds it.
pub proof fn lemma_mask_28(c: u32)
    by (bit_vector)
    ensures
        c & 0x0FFF_FFFF <= 0x0FFF_FFFF,
{
}

/// A mounted FAT32 filesystem.
pub struct Fat32FileSystem {
    pub boot_sector: Fat32BootSector,
    pub partition: GptPartitionEntry,
    pub fat_area: FatArea,
}

impl Fat32FileSystem {
    /// The geometry every read relies on.
    pub open spec fn wf(&self) -> bool {
        self.fat_area.wf()
    }

    /// Mounts the filesystem of `partition`: reads its boot sector and
    /// its FAT. `None` exactly when the boot sector lies beyond the
    /// device or the FAT area cannot be mounted.
    pub fn read_from_disk<D: BlockDevice>(
        partition: GptPartitionEntry,
        block_device: &D,
    ) -> (r: Option<Fat32FileSystem>)
        ensures
            r is Some <==> crate::fs::boot_sector::spec_boot_sector_readable(
                partition.starting_lba as int,
                block_device.disk(),
            ) && spec_fat_area_readable(partition.starting_lba as int, block_device.disk()),
            match r {
                Some(fs) => {
                    let base = partition.starting_lba * 512;
                    &&& fs.wf()
                    &&& fs.partition == partition
                    &&& fs.fat_area.start_sector == partition.starting_lba
                    &&& fs.fat_area.sectors_per_cluster == block_device.disk()[base + 13]
                    &&& fs.fat_area.first_data_sector == le16_at(block_device.disk(), base + 14)
                        + block_device.disk()[base + 16] * le32_at(block_device.disk(), base + 36)
                    &&& fs.fat_area.fat@ == block_device.disk().subrange(
                        (partition.starting_lba + le16_at(block_device.disk(), base + 14)) * 512,
                        (partition.starting_lba + le16_at(block_device.disk(), base + 14)
                            + le32_at(block_device.disk(), base + 36)) * 512,
                    )
                    &&& fs.boot_sector.root_cluster_number == le32_at(
                        block_device.disk(),
                        base + 44,
                    )
                },
                None => true,
            },
    {
        let boot_sector = match Fat32BootSector::read_from_disk(&partition, block_device) {
            Some(bs) => bs,
            None => {
                return None;
            },
        };
        let fat_area = match FatArea::read_from_disk(&partition, &boot_sector, block_device) {
            Some(a) => a,
            None => {
                return None;
            },
        };
        let fs = Fat32FileSystem { boot_sector, partition, fat_area };
        Some(fs)
    }

    /// Follows `path` from the root directory, matching each component
    /// against the 8.3 names of the directory walked, ignoring case.
    /// The result is exactly what `spec_resolve_path` names: the record
    /// of the last component, or `None` when some component does not
    /// resolve within the walk budget.
    pub fn find_entry<D: BlockDevice>(&self, path: &Path, block_device: &D) -> (r: Option<
        DirectoryEntry,
    >)
        requires
            self.wf(),
        ensures
            path.components@.len() == 0 ==> r is None,
            path.components@.len() > 0 ==> ({
                let resolved = spec_resolve_path(
                    crate::fs::path::component_views(path.components@),
                    0,
                    self.boot_sector.root_cluster_number,
                    self.fat_area,
                    block_device.disk(),
                );
                match r {
                    Some(e) => resolved is Some && entry_matches(
                        r,
                        resolved->Some_0.0,
                        resolved->Some_0.1,
                    ),
                    None => resolved is None,
                }
            }),
    {
        let ghost views = crate::fs::path::component_views(path.components@);
        let ghost disk = block_device.disk();
        let mut found_entry: Option<DirectoryEntry> = None;
        let mut cluster = self.boot_sector.root_cluster_number;
        let n = path.components.len();
        if n == 0 {
            return None;
        }
        let mut ci: usize = 0;
        while ci < n
            invariant
                self.wf(),
                0 < n == path.components@.len(),
                0 <= ci <= n,
                views == crate::fs::path::component_views(path.components@),
                disk == block_device.disk(),
                ci < n ==> spec_resolve_path(
                    views,
                    0,
                    self.boot_sector.root_cluster_number,
                    self.fat_area,
                    disk,
                ) == spec_resolve_path(views, ci as int, cluster, self.fat_area, disk),
                ci == n ==> ({
                    let resolved = spec_resolve_path(
                        views,
                        0,
                        self.boot_sector.root_cluster_number,
                        self.fat_area,
                        disk,
                    );
                    match found_entry {
                        Some(e) => resolved is Some && entry_matches(
                            found_entry,
                            resolved->Some_0.0,
                            resolved->Some_0.1,
                        ),
                        None => resolved is None,
                    }
                }),
            decreases n - ci,
        {
            let part = &path.components[ci];
            let mut walker = DirectoryWalker::new(cluster, &self.fat_area);
            let mut matched: Option<DirectoryEntry> = None;
            let ghost target = spec_find_in_dir(
                Seq::empty(),
                512,
                cluster,
                self.fat_area,
                disk,
                part@,
                DIR_WALK_BUDGET as nat,
            );
            proof {
                assert(walker.sector@ =~= Seq::<u8>::empty());
            }
            // bound the walk so that a cyclic chain cannot spin forever
            let mut budget: usize = DIR_WALK_BUDGET;
            let ghost mut matched_loc: (Seq<u8>, int) = (Seq::empty(), 0);
            let mut done = false;
            while budget > 0 && !done && matched.is_none()
                invariant
                    self.wf(),
                    walker.wf(),
                    disk == block_device.disk(),
                    n == path.components@.len(),
                    0 <= ci < n,
                    part == &path.components@[ci as int],
                    done ==> matched is None && target is None,
                    !done && matched is None ==> target == spec_find_in_dir(
                        walker.sector@,
                        walker.sector_offset as int,
                        walker.cluster_iter.current_cluster,
                        self.fat_area,
                        disk,
                        part@,
                        budget as nat,
                    ),
                    matched is Some ==> target == Some(matched_loc) && entry_matches(
                        matched,
                        matched_loc.0,
                        matched_loc.1,
                    ),
                decreases budget,
            {
                budget = budget - 1;
                let ghost pre_state = (
                    walker.sector@,
                    walker.sector_offset as int,
                    walker.cluster_iter.current_cluster,
                );
                match walker.next(&self.fat_area, block_device) {
                    Some(entry) => {
                        let ghost outcome = walker_outcome(
                            pre_state.0,
                            pre_state.1,
                            pre_state.2,
                            self.fat_area,
                            disk,
                        );
                        let fname = entry.file_name();
                        proof {
                            assert(fname@ == spec_record_name(
                                outcome->Some_0.0.0,
                                outcome->Some_0.0.1,
                            ));
                        }
                        if eq_ignore_ascii_case(&fname, part) {
                            matched = Some(entry);
                            proof {
                                matched_loc = outcome->Some_0.0;
                            }
                        }
                    },
                    None => {
                        done = true;
                    },
                }
            }
            match matched {
                Some(e) => {
                    proof {
                        assert(e.cluster_high == le16_at(matched_loc.0, matched_loc.1 + 20));
                        assert(e.cluster_low == le16_at(matched_loc.0, matched_loc.1 + 26));
                    }
                    cluster = e.cluster();
                    found_entry = Some(e);
                },
                None => {
                    proof {
                        assert(views[ci as int] == part@);
                        assert(target is None);
                        assert(spec_resolve_path(views, ci as int, cluster, self.fat_area, disk)
                            is None);
                    }
                    return None;
                },
            }
            ci = ci + 1;
        }
        found_entry
    }

    /// Opens `path`: the inode is the resolved entry's first cluster,
    /// masked to FAT32's 28 significant bits, and the size its size
    /// field.
    pub fn open<D: BlockDevice>(&self, path: &Path, block_device: &D) -> (r: Option<VirtualNode>)
        requires
            self.wf(),
        ensures
            path.components@.len() == 0 ==> r is None,
            path.components@.len() > 0 ==> ({
                let resolved = spec_resolve_path(
                    crate::fs::path::component_views(path.components@),
                    0,
                    self.boot_sector.root_cluster_number,
                    self.fat_area,
                    block_device.disk(),
                );
                match r {
                    Some(node) => resolved is Some && ({
                        let loc = resolved->Some_0;
                        &&& node.inode.0 == (crate::fs::directory::spec_cluster(
                            le16_at(loc.0, loc.1 + 20) as u16,
                            le16_at(loc.0, loc.1 + 26) as u16,
                        ) & 0x0FFF_FFFF)
                        &&& node.size == le32_at(loc.0, loc.1 + 28)
                    }),
                    None => resolved is None,
                }
            }),
    {
        match self.find_entry(path, block_device) {
            Some(entry) => {
                let raw = entry.cluster();
                let cluster = raw & 0x0FFF_FFFF;
                proof {
                    lemma_mask_28(raw);
                }
                Some(VirtualNode::new(Inode::new(cluster as u64), entry.size as u64))
            },
            None => None,
        }
    }

    /// Reads the file of `node` from byte `offset` (a multiple of 512,
    /// counted in whole chain steps) into `buffer`: one 512-byte sector
    /// per cluster of the chain, until the buffer is full or the chain
    /// ends. The bytes delivered are exactly `spec_file_bytes` of the
    /// chain, and the rest of the buffer is left alone.
    pub fn read<D: BlockDevice>(
        &self,
        node: &VirtualNode,
        offset: usize,
        buffer: &mut Vec<u8>,
        block_device: &D,
    ) -> (r: usize)
        requires
            self.wf(),
            offset % 512 == 0,
            node.inode.0 <= 0x0FFF_FFFF,
        ensures
            ({
                let content = spec_file_bytes(
                    node.inode.0 as u32,
                    offset as int / 512,
                    old(buffer)@.len() as int,
                    self.fat_area,
                    block_device.disk(),
                    DIR_WALK_BUDGET as nat,
                );
                &&& r == content.len()
                &&& final(buffer)@ == content + old(buffer)@.skip(r as int)
                &&& final(buffer)@.len() == old(buffer)@.len()
            }),
    {
        let ghost disk = block_device.disk();
        let mut iter = self.fat_area.cluster_chain_iter(node.inode.0 as u32);
        let mut skip = offset / 512;
        let mut pos: usize = 0;
        let len = buffer.len();
        let ghost content = spec_file_bytes(
            node.inode.0 as u32,
            skip as int,
            len as int,
            self.fat_area,
            disk,
            DIR_WALK_BUDGET as nat,
        );
        let mut budget: usize = DIR_WALK_BUDGET;
        let mut done = false;
        while budget > 0 && pos < len && !done
            invariant
                self.wf(),
                disk == block_device.disk(),
                0 <= pos <= len,
                len == buffer@.len(),
                old(buffer)@.len() == len,
                buffer@.skip(pos as int) == old(buffer)@.skip(pos as int),
                !done ==> content == buffer@.take(pos as int) + spec_file_bytes(
                    iter.current_cluster,
                    skip as int,
                    len - pos as int,
                    self.fat_area,
                    disk,
                    budget as nat,
                ),
                done ==> content == buffer@.take(pos as int),
            decreases budget,
        {
            budget = budget - 1;
            let ghost pre_cluster = iter.current_cluster;
            let cluster = match iter.next(&self.fat_area) {
                Some(c) => c,
                None => {
                    done = true;
                    continue ;
                },
            };
            if skip > 0 {
                skip = skip - 1;
                continue ;
            }
            let sector_lba = match self.fat_area.data_sector(cluster) {
                Some(s) => s,
                None => {
                    done = true;
                    continue ;
                },
            };
            let size = block_device.disk_size() as u64;
            if sector_lba > 0xFFFF_FFFF || (sector_lba + 1) * 512 > size {
                done = true;
                continue ;
            }
            let mut sector: Vec<u8> = new_zero_vec(512);
            block_device.read_block(sector_lba as usize, &mut sector);
            let ghost pos0 = pos as int;
            let ghost chunk_len: int = if len - pos0 < 512 {
                len - pos0
            } else {
                512
            };
            let ghost pre_buf = buffer@;
            proof {
                assert forall|j: int| pos0 <= j < len implies buffer@[j] == old(buffer)@[j] by {
                    assert(buffer@.skip(pos0) == old(buffer)@.skip(pos0));
                    assert(buffer@.skip(pos0)[j - pos0] == buffer@[j]);
                    assert(old(buffer)@.skip(pos0)[j - pos0] == old(buffer)@[j]);
                }
            }
            let mut k: usize = 0;
            while k < 512 && pos < len
                invariant
                    0 <= k <= 512,
                    pos as int == pos0 + k,
                    0 <= pos0,
                    pos0 + chunk_len <= len <= buffer@.len(),
                    chunk_len == if len - pos0 < 512 { len - pos0 } else { 512int },
                    k <= chunk_len,
                    len == buffer@.len(),
                    old(buffer)@.len() == len,
                    sector@.len() == 512,
                    forall|j: int| 0 <= j < pos0 ==> buffer@[j] == pre_buf[j],
                    forall|j: int| 0 <= j < k ==> buffer@[pos0 + j] == sector@[j],
                    forall|j: int| pos0 + k <= j < len ==> buffer@[j] == old(buffer)@[j],
                decreases 512 - k,
            {
                let b = sector[k];
                buffer.set(pos, b);
                pos = pos + 1;
                k = k + 1;
            }
            proof {
                assert(k == chunk_len);
                let rem = len - pos0;
                let chunk = if rem < 512 {
                    disk.subrange(512 * sector_lba, 512 * sector_lba + rem)
                } else {
                    disk.subrange(512 * sector_lba, 512 * sector_lba + 512)
                };
                assert(chunk.len() == chunk_len);
                assert(buffer@.take(pos as int) =~= buffer@.take(pos0) + chunk);
                assert(buffer@.take(pos0) =~= pre_buf.take(pos0));
                assert forall|i: int|
                    0 <= i < buffer@.skip(pos as int).len() implies buffer@.skip(pos as int)[i]
                    == old(buffer)@.skip(pos as int)[i] by {
                    assert(buffer@.skip(pos as int)[i] == buffer@[pos as int + i]);
                    assert(old(buffer)@.skip(pos as int)[i] == old(buffer)@[pos as int + i]);
                }
                assert(buffer@.skip(pos as int) =~= old(buffer)@.skip(pos as int));
            }
        }
        proof {
            assert(content == buffer@.take(pos as int));
            assert(buffer@ =~= buffer@.take(pos as int) + buffer@.skip(pos as int));
        }
        pos
    }
}

} // verus!
