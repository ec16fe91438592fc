//! GPT and FAT32 behaviour over an in-memory disk.

use luix_kernel::block::{BlockDevice, RamDisk};
use luix_kernel::fs::boot_sector::Fat32BootSector;
use luix_kernel::fs::directory::{eq_ignore_ascii_case, DirectoryEntry};
use luix_kernel::fs::fat::{Fat32FileSystem, FatArea, FatClusterIterator};
use luix_kernel::fs::gpt::{GptHeader, GuidedPartitionTable};
use luix_kernel::fs::path::Path;
use luix_kernel::fs::find_boot_fs;

fn put_u16(disk: &mut Vec<u8>, off: usize, v: u16) {
    let b = v.to_le_bytes();
    disk[off] = b[0];
    disk[off + 1] = b[1];
}

fn put_u32(disk: &mut Vec<u8>, off: usize, v: u32) {
    let b = v.to_le_bytes();
    for i in 0..4 {
        disk[off + i] = b[i];
    }
}

fn put_u64(disk: &mut Vec<u8>, off: usize, v: u64) {
    let b = v.to_le_bytes();
    for i in 0..8 {
        disk[off + i] = b[i];
    }
}

/// A little GPT + FAT32 disk image:
/// LBA 1 holds the GPT header, LBA 2 the partition entry;
/// the partition starts at LBA 4 with one reserved sector, one FAT
/// sector, and the root directory in cluster 2 (LBA 6).
fn build_disk() -> Vec<u8> {
    let mut disk = vec![0u8; 512 * 16];

    // GPT header at LBA 1
    let h = 512;
    disk[h..h + 8].copy_from_slice(b"EFI PART");
    put_u32(&mut disk, h + 12, 92); // header size
    put_u64(&mut disk, h + 24, 1); // header lba
    // disk GUID, textual 01020304-0506-0708-090a-0b0c0d0e0f10
    let disk_guid = [4u8, 3, 2, 1, 6, 5, 8, 7, 9, 10, 11, 12, 13, 14, 15, 16];
    disk[h + 56..h + 72].copy_from_slice(&disk_guid);
    put_u64(&mut disk, h + 72, 2); // partition entry lba
    put_u32(&mut disk, h + 80, 1); // partition entry count

    // partition entry at LBA 2
    let e = 1024;
    let type_guid = [
        0x28u8, 0x73, 0x2a, 0xc1, 0x1f, 0xf8, 0xd2, 0x11, 0xba, 0x4b, 0x00, 0xa0, 0xc9, 0x3e,
        0xc9, 0x3b,
    ];
    disk[e..e + 16].copy_from_slice(&type_guid);
    let part_guid = [0x11u8, 0, 0, 0, 0, 0, 0, 0, 0, 0, 0, 0, 0, 0, 0, 0x22];
    disk[e + 16..e + 32].copy_from_slice(&part_guid);
    put_u64(&mut disk, e + 32, 4); // starting lba
    put_u64(&mut disk, e + 40, 15); // ending lba
    // partition name, UTF-16LE
    let name = "boot";
    for (i, c) in name.encode_utf16().enumerate() {
        put_u16(&mut disk, e + 56 + 2 * i, c);
    }

    // FAT32 boot sector at LBA 4 (partition start)
    let b = 4 * 512;
    put_u16(&mut disk, b + 11, 512); // bytes per sector
    disk[b + 13] = 1; // sectors per cluster
    put_u16(&mut disk, b + 14, 1); // reserved sectors
    disk[b + 16] = 1; // fat count
    put_u32(&mut disk, b + 36, 1); // sectors per fat
    put_u32(&mut disk, b + 44, 2); // root cluster

    // FAT at LBA 5: clusters 2 and 3 are single-cluster chains
    let f = 5 * 512;
    put_u32(&mut disk, f + 2 * 4, 0x0FFF_FFFF);
    put_u32(&mut disk, f + 3 * 4, 0x0FFF_FFFF);

    // root directory in cluster 2 = LBA 6 (start 4 + first_data 2)
    let d = 6 * 512;
    disk[d..d + 8].copy_from_slice(b"README  ");
    disk[d + 8..d + 11].copy_from_slice(b"MD ");
    disk[d + 11] = 0x20; // archive
    put_u16(&mut disk, d + 26, 3); // first cluster
    put_u32(&mut disk, d + 28, 0x22); // size

    // the file's bytes in cluster 3 = LBA 7
    let c = 7 * 512;
    disk[c..c + 5].copy_from_slice(b"hello");

    disk
}

#[test]
fn gpt_header_at_lba_1() {
    let disk = RamDisk::new(build_disk());
    let mut sector = vec![0u8; 512];
    disk.read_block(1, &mut sector);
    assert_eq!(&sector[0..8], b"EFI PART");
    let header = GptHeader::parse(&sector).unwrap();
    assert_eq!(header.header_size, 92);
    assert_eq!(header.header_lba, 1);
    assert_eq!(header.partition_entry_lba, 2);
}

#[test]
fn gpt_rejects_bad_signature() {
    let mut image = build_disk();
    image[512] = 0x00;
    let disk = RamDisk::new(image);
    assert!(GuidedPartitionTable::read_from_disk(&disk).is_none());
}

#[test]
fn gpt_partition_name_is_utf16() {
    let disk = RamDisk::new(build_disk());
    let gpt = GuidedPartitionTable::read_from_disk(&disk).unwrap();
    assert_eq!(gpt.entry.starting_lba, 4);
    let name: String = char::decode_utf16(
        gpt.entry
            .partition_name
            .iter()
            .copied()
            .take_while(|&c| c != 0),
    )
    .map(|c| c.unwrap())
    .collect();
    assert_eq!(name, "boot");
}

#[test]
fn gpt_guids_are_mixed_endian() {
    let disk = RamDisk::new(build_disk());
    let gpt = GuidedPartitionTable::read_from_disk(&disk).unwrap();
    // the on-disk bytes 04 03 02 01 ... decode to this textual form
    let expected =
        uuid::Uuid::from_fields(0x01020304, 0x0506, 0x0708, &[9, 10, 11, 12, 13, 14, 15, 16]);
    assert_eq!(gpt.disk_guid(), expected);
    let expected_type = uuid::Uuid::from_fields(
        0xc12a7328,
        0xf81f,
        0x11d2,
        &[0xba, 0x4b, 0x00, 0xa0, 0xc9, 0x3e, 0xc9, 0x3b],
    );
    assert_eq!(gpt.partition_type_guid(), expected_type);
}

#[test]
fn boot_sector_fields() {
    let disk = RamDisk::new(build_disk());
    let gpt = GuidedPartitionTable::read_from_disk(&disk).unwrap();
    let bs = Fat32BootSector::read_from_disk(&gpt.entry, &disk).unwrap();
    assert_eq!(bs.bios_parameter_block.bytes_per_sector(), 512);
    assert_eq!(bs.bios_parameter_block.reserved_sectors(), 1);
    assert_eq!(bs.sectors_per_fat(), 1);
    assert_eq!(bs.root_cluster_number, 2);
    assert_eq!(bs.first_data_sector(), 2);
}

#[test]
fn cluster_chain_single_cluster() {
    let disk = RamDisk::new(build_disk());
    let gpt = GuidedPartitionTable::read_from_disk(&disk).unwrap();
    let bs = Fat32BootSector::read_from_disk(&gpt.entry, &disk).unwrap();
    let area = FatArea::read_from_disk(&gpt.entry, &bs, &disk).unwrap();
    // a cluster whose FAT entry is at or past the end-of-chain marker
    // yields exactly itself
    let mut iter = area.cluster_chain_iter(2);
    assert_eq!(iter.next(&area), Some(2));
    assert_eq!(iter.next(&area), None);
}

#[test]
fn cluster_chain_follows_links() {
    let disk = RamDisk::new(build_disk());
    let gpt = GuidedPartitionTable::read_from_disk(&disk).unwrap();
    let bs = Fat32BootSector::read_from_disk(&gpt.entry, &disk).unwrap();
    let mut area = FatArea::read_from_disk(&gpt.entry, &bs, &disk).unwrap();
    // link cluster 2 -> 3 by patching the in-memory FAT
    area.fat[8] = 3;
    area.fat[9] = 0;
    area.fat[10] = 0;
    area.fat[11] = 0;
    let mut iter = area.cluster_chain_iter(2);
    assert_eq!(iter.next(&area), Some(2));
    assert_eq!(iter.next(&area), Some(3));
    assert_eq!(iter.next(&area), None);
}

#[test]
fn iterator_starts_past_eoc_yields_nothing() {
    let area = FatArea {
        start_sector: 0,
        sector_size: 512,
        fat_start_sector: 0,
        sectors_per_fat: 1,
        first_data_sector: 1,
        sectors_per_cluster: 1,
        fat: vec![0u8; 512],
    };
    let mut iter = FatClusterIterator {
        current_cluster: 0x0FFF_FFF8,
    };
    assert_eq!(iter.next(&area), None);
}

#[test]
fn find_entry_matches_names_case_insensitively() {
    let disk = RamDisk::new(build_disk());
    let gpt = GuidedPartitionTable::read_from_disk(&disk).unwrap();
    let fs = Fat32FileSystem::read_from_disk(gpt.entry, &disk).unwrap();
    let path = Path::new("/README.md").unwrap();
    let entry = fs.find_entry(&path, &disk).unwrap();
    assert_eq!(entry.file_name(), b"README.MD".to_vec());
    assert_eq!(entry.cluster(), 3);
    assert_eq!(entry.size, 0x22);
}

#[test]
fn find_entry_misses_absent_files() {
    let disk = RamDisk::new(build_disk());
    let gpt = GuidedPartitionTable::read_from_disk(&disk).unwrap();
    let fs = Fat32FileSystem::read_from_disk(gpt.entry, &disk).unwrap();
    let path = Path::new("/MISSING.TXT").unwrap();
    assert!(fs.find_entry(&path, &disk).is_none());
}

#[test]
fn open_and_read_file() {
    let disk = RamDisk::new(build_disk());
    let gpt = GuidedPartitionTable::read_from_disk(&disk).unwrap();
    let fs = Fat32FileSystem::read_from_disk(gpt.entry, &disk).unwrap();
    let path = Path::new("/README.MD").unwrap();
    let node = fs.open(&path, &disk).unwrap();
    assert_eq!(node.inode.as_u64(), 3);
    assert_eq!(node.size, 0x22);
    let mut buffer = vec![0u8; 5];
    let read = fs.read(&node, 0, &mut buffer, &disk);
    assert_eq!(read, 5);
    assert_eq!(&buffer, b"hello");
}

#[test]
fn find_boot_fs_requires_matching_guids() {
    let disk = RamDisk::new(build_disk());
    let disk_id =
        uuid::Uuid::from_fields(0x01020304, 0x0506, 0x0708, &[9, 10, 11, 12, 13, 14, 15, 16]);
    let part_id = uuid::Uuid::from_fields(
        0x00000011,
        0x0000,
        0x0000,
        &[0, 0, 0, 0, 0, 0, 0, 0x22],
    );
    assert!(find_boot_fs(&disk, &disk_id, &part_id).is_some());
    let wrong = uuid::Uuid::from_fields(0, 0, 0, &[0; 8]);
    assert!(find_boot_fs(&disk, &wrong, &part_id).is_none());
}

#[test]
fn path_components_split_on_separators() {
    let path = Path::new("/a/b/c.file").unwrap();
    let parts = path.iter();
    assert_eq!(parts.len(), 3);
    assert_eq!(parts[0], b"a".to_vec());
    assert_eq!(parts[1], b"b".to_vec());
    assert_eq!(parts[2], b"c.file".to_vec());
    assert!(Path::new("relative/path").is_none());
    assert_eq!(Path::new("/").unwrap().iter().len(), 0);
}

#[test]
fn directory_entry_decoding() {
    let mut sector = vec![0u8; 512];
    sector[0..8].copy_from_slice(b"KERNEL  ");
    sector[8..11].copy_from_slice(b"ELF");
    sector[11] = 0x20;
    put_u16(&mut sector, 20, 0x0001);
    put_u16(&mut sector, 26, 0x0002);
    put_u32(&mut sector, 28, 1234);
    let entry = DirectoryEntry::from_sector(&sector, 0).unwrap();
    assert_eq!(entry.name, b"KERNEL".to_vec());
    assert_eq!(entry.ext, b"ELF".to_vec());
    assert_eq!(entry.cluster(), 0x0001_0002);
    assert_eq!(entry.size, 1234);
    assert!(!entry.is_long_name());
    // a deleted entry and the end marker both decode to nothing
    sector[0] = 0xE5;
    assert!(DirectoryEntry::from_sector(&sector, 0).is_none());
    sector[0] = 0x00;
    assert!(DirectoryEntry::from_sector(&sector, 0).is_none());
    // long-name fragments carry attribute 0x0F
    sector[0] = 0x41;
    sector[11] = 0x0F;
    assert!(DirectoryEntry::from_sector(&sector, 0).unwrap().is_long_name());
}

#[test]
fn case_insensitive_name_comparison() {
    assert!(eq_ignore_ascii_case(
        &b"ReadMe.MD".to_vec(),
        &b"rEADmE.md".to_vec()
    ));
    assert!(!eq_ignore_ascii_case(&b"A".to_vec(), &b"B".to_vec()));
    assert!(!eq_ignore_ascii_case(&b"AB".to_vec(), &b"A".to_vec()));
}

#[test]
fn data_sectors_scale_with_cluster_size() {
    let area = FatArea {
        start_sector: 4,
        sector_size: 512,
        fat_start_sector: 1,
        sectors_per_fat: 1,
        first_data_sector: 2,
        sectors_per_cluster: 2,
        fat: vec![0u8; 512],
    };
    // cluster 2 starts the data area; each further cluster is two
    // sectors wide
    assert_eq!(area.data_sector(2), Some(6));
    assert_eq!(area.data_sector(3), Some(8));
    assert_eq!(area.data_sector(5), Some(12));
    assert_eq!(area.data_sector(1), None);
}

#[test]
fn mount_rejects_zero_cluster_size() {
    let mut image = build_disk();
    image[4 * 512 + 13] = 0; // sectors per cluster
    let disk = RamDisk::new(image);
    let gpt = GuidedPartitionTable::read_from_disk(&disk).unwrap();
    assert!(Fat32FileSystem::read_from_disk(gpt.entry, &disk).is_none());
}
