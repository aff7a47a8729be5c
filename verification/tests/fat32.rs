//! Filesystem behaviour on synthetic volumes held in memory: chain
//! termination, directory decoding, path resolution, and file reads.

use kurumi::cluster::{ClusterChain, FatEntry};
use kurumi::directory::decode_directories;
use kurumi::disk::MemDisk;
use kurumi::fat32::{Fat32, FsError};
use kurumi::file::File;

const SECTOR: usize = 512;

/// A one-FAT volume: 512-byte sectors, one sector per cluster, one
/// reserved sector, a one-sector FAT, root directory at cluster 2.
/// Cluster `c` lives at sector `2 + (c - 2)`.
fn blank_volume(total_sectors: u32) -> Vec<u8> {
    let mut image = vec![0u8; total_sectors as usize * SECTOR];
    put16(&mut image, 11, 512); // bytes per sector
    image[13] = 1; // sectors per cluster
    put16(&mut image, 14, 1); // reserved sectors
    image[16] = 1; // number of FATs
    put16(&mut image, 22, 1); // sectors per FAT (16-bit field)
    put32(&mut image, 32, total_sectors); // total sectors, 32-bit field
    put32(&mut image, 44, 2); // root directory cluster
    image
}

fn put16(image: &mut [u8], off: usize, v: u16) {
    image[off] = v as u8;
    image[off + 1] = (v >> 8) as u8;
}

fn put32(image: &mut [u8], off: usize, v: u32) {
    image[off] = v as u8;
    image[off + 1] = (v >> 8) as u8;
    image[off + 2] = (v >> 16) as u8;
    image[off + 3] = (v >> 24) as u8;
}

/// Write cluster `c`'s FAT entry.
fn set_fat(image: &mut [u8], c: u32, value: u32) {
    put32(image, SECTOR + c as usize * 4, value);
}

fn cluster_offset(c: u32) -> usize {
    (2 + (c as usize - 2)) * SECTOR
}

/// Write a short directory entry into slot `slot` of cluster `c`.
fn put_short_entry(image: &mut [u8], c: u32, slot: usize, name: &[u8; 11], attr: u8, cluster: u32, size: u32) {
    let off = cluster_offset(c) + slot * 32;
    image[off..off + 11].copy_from_slice(name);
    image[off + 11] = attr;
    put16(image, off + 20, (cluster >> 16) as u16);
    put16(image, off + 26, cluster as u16);
    put32(image, off + 28, size);
}

/// Write a long-name fragment into slot `slot` of cluster `c`.
fn put_lfn_entry(image: &mut [u8], c: u32, slot: usize, order: u8, text: &str) {
    let off = cluster_offset(c) + slot * 32;
    image[off] = order;
    image[off + 11] = 0x0F;
    let unit_offsets = [1, 3, 5, 7, 9, 14, 16, 18, 20, 22, 24, 28, 30];
    let units: Vec<u16> = text.encode_utf16().collect();
    for (k, &rel) in unit_offsets.iter().enumerate() {
        let unit = if k < units.len() {
            units[k]
        } else if k == units.len() {
            0x0000
        } else {
            0xFFFF
        };
        put16(image, off + rel, unit);
    }
}

const END: u32 = 0x0FFFFFFF;
const BAD: u32 = 0x0FFFFFF7;

#[test]
fn chain_yields_the_end_marked_cluster_last() {
    let mut image = blank_volume(40);
    set_fat(&mut image, 3, 4);
    set_fat(&mut image, 4, END);
    let mut disk = MemDisk::new(image);
    let fat = Fat32::new(&mut disk).unwrap();

    let mut chain = ClusterChain::new(3);
    assert_eq!(chain.next(&fat, &mut disk), Ok(Some(3)));
    assert_eq!(chain.next(&fat, &mut disk), Ok(Some(4)));
    assert_eq!(chain.next(&fat, &mut disk), Ok(None));
    assert_eq!(chain.next(&fat, &mut disk), Ok(None));
}

#[test]
fn bad_block_is_distinct_from_the_end_of_a_chain() {
    let mut image = blank_volume(40);
    set_fat(&mut image, 5, 6);
    set_fat(&mut image, 6, BAD);
    let mut disk = MemDisk::new(image);
    let fat = Fat32::new(&mut disk).unwrap();

    let mut chain = ClusterChain::new(5);
    assert_eq!(chain.next(&fat, &mut disk), Ok(Some(5)));
    assert_eq!(chain.next(&fat, &mut disk), Ok(Some(6)));
    assert_eq!(chain.next(&fat, &mut disk), Err(FsError::BadBlock));
}

#[test]
fn out_of_range_cluster_is_an_implicit_end() {
    let mut image = blank_volume(40);
    // 38 clusters in total; 1000 is past the end of the volume.
    set_fat(&mut image, 3, 1000);
    let mut disk = MemDisk::new(image);
    let fat = Fat32::new(&mut disk).unwrap();

    let mut chain = ClusterChain::new(3);
    assert_eq!(chain.next(&fat, &mut disk), Ok(Some(3)));
    assert_eq!(chain.next(&fat, &mut disk), Ok(Some(1000)));
    assert_eq!(chain.next(&fat, &mut disk), Ok(None));
}

#[test]
fn high_reserved_bits_of_a_fat_entry_are_ignored() {
    let mut image = blank_volume(40);
    set_fat(&mut image, 3, 0xF0000004);
    set_fat(&mut image, 4, END);
    let mut disk = MemDisk::new(image);
    let fat = Fat32::new(&mut disk).unwrap();

    let mut chain = ClusterChain::new(3);
    assert_eq!(chain.next(&fat, &mut disk), Ok(Some(3)));
    assert_eq!(chain.next(&fat, &mut disk), Ok(Some(4)));
    assert_eq!(chain.next(&fat, &mut disk), Ok(None));
}

#[test]
fn read_entry_classifies_the_markers() {
    let mut image = blank_volume(40);
    set_fat(&mut image, 3, 7);
    set_fat(&mut image, 4, 0x0FFFFFF8);
    set_fat(&mut image, 5, BAD);
    let mut disk = MemDisk::new(image);
    let fat = Fat32::new(&mut disk).unwrap();
    let chain = ClusterChain::new(3);
    assert_eq!(chain.read_entry(&fat, &mut disk, 3), Ok(FatEntry::Node(7)));
    assert_eq!(chain.read_entry(&fat, &mut disk, 4), Ok(FatEntry::End));
    assert_eq!(chain.read_entry(&fat, &mut disk, 5), Ok(FatEntry::BadBlock));
}

#[test]
fn long_name_fragments_rebuild_in_logical_order() {
    let mut image = blank_volume(40);
    set_fat(&mut image, 2, END);
    // On-disk order is reverse logical order: "World.txt" first.
    put_lfn_entry(&mut image, 2, 0, 0x01, "World.txt");
    put_lfn_entry(&mut image, 2, 1, 0x42, "Hello");
    put_short_entry(&mut image, 2, 2, b"HELLO   TXT", 0x20, 9, 1024);
    let mut disk = MemDisk::new(image);
    let fat = Fat32::new(&mut disk).unwrap();

    let dirs = fat.read_folder(&mut disk, 2).unwrap();
    assert_eq!(dirs.len(), 1);
    assert_eq!(dirs[0].get_name(), "HelloWorld.txt");
    assert_eq!(dirs[0].get_cluster(), 9);
    assert_eq!(dirs[0].get_size(), 1024);
}

#[test]
fn deleted_slots_are_skipped_and_decoding_stops_at_the_terminator() {
    let mut image = blank_volume(40);
    set_fat(&mut image, 2, END);
    put_short_entry(&mut image, 2, 0, b"A          ", 0x20, 10, 1);
    put_short_entry(&mut image, 2, 1, b"B          ", 0x20, 11, 2);
    put_short_entry(&mut image, 2, 2, b"C          ", 0x20, 12, 3);
    put_short_entry(&mut image, 2, 3, b"D          ", 0x20, 13, 4);
    image[cluster_offset(2) + 3 * 32] = 0xE5; // slot 3 deleted
    put_short_entry(&mut image, 2, 4, b"E          ", 0x20, 14, 5);
    // Slot 5 starts with 0x00: end of the directory.
    put_short_entry(&mut image, 2, 6, b"F          ", 0x20, 15, 6);
    let mut disk = MemDisk::new(image);
    let fat = Fat32::new(&mut disk).unwrap();

    let dirs = fat.read_folder(&mut disk, 2).unwrap();
    let names: Vec<String> = dirs.iter().map(|d| d.get_name()).collect();
    assert_eq!(names, ["A", "B", "C", "E"]);
}

#[test]
fn short_names_are_trimmed_of_space_padding() {
    let mut bytes = vec![0u8; 64];
    bytes[0..11].copy_from_slice(b"README     ");
    bytes[11] = 0x20;
    let mut dirs = Vec::new();
    decode_directories(&bytes, &mut dirs);
    assert_eq!(dirs.len(), 1);
    assert_eq!(dirs[0].get_name(), "README");
}

#[test]
fn an_orphaned_name_accumulator_is_discarded() {
    let mut bytes = vec![0u8; 64];
    // One long-name fragment with no short entry after it.
    bytes[0] = 0x01;
    bytes[11] = 0x0F;
    let mut dirs = Vec::new();
    decode_directories(&bytes, &mut dirs);
    assert_eq!(dirs.len(), 0);
}

fn two_level_volume() -> Vec<u8> {
    let mut image = blank_volume(40);
    set_fat(&mut image, 2, END);
    set_fat(&mut image, 5, END);
    set_fat(&mut image, 9, END);
    put_short_entry(&mut image, 2, 0, b"DOCS       ", 0x10, 5, 0);
    put_short_entry(&mut image, 5, 0, b"README     ", 0x20, 9, 1024);
    image
}

#[test]
fn a_nested_path_resolves_to_the_file_record() {
    let mut disk = MemDisk::new(two_level_volume());
    let fat = Fat32::new(&mut disk).unwrap();
    let fp = fat.open_file(&mut disk, "DOCS/README").unwrap();
    assert_eq!(fp.get_pos(), 0);
    assert_eq!(fp.get_file().get_cluster(), 9);
    assert_eq!(fp.get_file().get_size(), 1024);
}

#[test]
fn a_missing_name_is_a_lookup_failure() {
    let mut disk = MemDisk::new(two_level_volume());
    let fat = Fat32::new(&mut disk).unwrap();
    assert!(matches!(fat.open_file(&mut disk, "DOCS/MISSING"), Err(FsError::NotFound)));
}

#[test]
fn a_path_below_a_file_is_its_own_failure() {
    let mut disk = MemDisk::new(two_level_volume());
    let fat = Fat32::new(&mut disk).unwrap();
    assert!(matches!(fat.open_file(&mut disk, "DOCS/README/EXTRA"), Err(FsError::NotAFolder)));
}

#[test]
fn a_directory_itself_can_be_resolved() {
    let mut disk = MemDisk::new(two_level_volume());
    let fat = Fat32::new(&mut disk).unwrap();
    let fp = fat.open_file(&mut disk, "DOCS").unwrap();
    assert_eq!(fp.get_file().get_cluster(), 5);
}

#[test]
fn matching_is_case_sensitive() {
    let mut disk = MemDisk::new(two_level_volume());
    let fat = Fat32::new(&mut disk).unwrap();
    assert!(matches!(fat.open_file(&mut disk, "docs"), Err(FsError::NotFound)));
}

fn pattern_byte(i: usize) -> u8 {
    (i * 7 + 13) as u8
}

fn patterned_file_volume() -> Vec<u8> {
    let mut image = blank_volume(40);
    set_fat(&mut image, 2, END);
    set_fat(&mut image, 10, 11);
    set_fat(&mut image, 11, END);
    put_short_entry(&mut image, 2, 0, b"DATA       ", 0x20, 10, 1024);
    for i in 0..512 {
        image[cluster_offset(10) + i] = pattern_byte(i);
        image[cluster_offset(11) + i] = pattern_byte(512 + i);
    }
    image
}

#[test]
fn a_pattern_over_two_clusters_reads_back_in_one_call() {
    let mut disk = MemDisk::new(patterned_file_volume());
    let fat = Fat32::new(&mut disk).unwrap();
    let fp = fat.open_file(&mut disk, "DATA").unwrap();
    let mut buffer = vec![0u8; 1024];
    assert_eq!(fat.read_file(&mut disk, &fp, &mut buffer), Ok(1024));
    for i in 0..1024 {
        assert_eq!(buffer[i], pattern_byte(i));
    }
}

#[test]
fn a_pattern_over_two_clusters_reads_back_cluster_by_cluster() {
    let mut disk = MemDisk::new(patterned_file_volume());
    let fat = Fat32::new(&mut disk).unwrap();
    let mut fp = fat.open_file(&mut disk, "DATA").unwrap();
    let mut buffer = vec![0u8; 512];
    assert_eq!(fat.read_file(&mut disk, &fp, &mut buffer), Ok(512));
    for i in 0..512 {
        assert_eq!(buffer[i], pattern_byte(i));
    }
    fp.advance_pointer(512);
    assert_eq!(fat.read_file(&mut disk, &fp, &mut buffer), Ok(512));
    for i in 0..512 {
        assert_eq!(buffer[i], pattern_byte(512 + i));
    }
}

#[test]
fn a_read_stops_at_the_file_size() {
    let mut image = blank_volume(40);
    set_fat(&mut image, 2, END);
    set_fat(&mut image, 10, END);
    // Declared size smaller than one cluster.
    put_short_entry(&mut image, 2, 0, b"SMALL      ", 0x20, 10, 100);
    let mut disk = MemDisk::new(image);
    let fat = Fat32::new(&mut disk).unwrap();
    let fp = fat.open_file(&mut disk, "SMALL").unwrap();
    let mut buffer = vec![0u8; 1024];
    // The first cluster is copied whole, then the size bound stops it.
    assert_eq!(fat.read_file(&mut disk, &fp, &mut buffer), Ok(512));
}

#[test]
fn an_unaligned_buffer_is_rejected() {
    let mut disk = MemDisk::new(patterned_file_volume());
    let fat = Fat32::new(&mut disk).unwrap();
    let fp = fat.open_file(&mut disk, "DATA").unwrap();
    let mut buffer = vec![0u8; 100];
    assert_eq!(fat.read_file(&mut disk, &fp, &mut buffer), Err(FsError::UnalignedLength));
}

#[test]
fn zero_geometry_is_rejected_at_mount() {
    let mut image = blank_volume(40);
    image[13] = 0; // zero sectors per cluster
    let mut disk = MemDisk::new(image);
    assert!(matches!(Fat32::new(&mut disk), Err(FsError::InvalidGeometry)));

    let mut image = blank_volume(40);
    put16(&mut image, 11, 0); // zero bytes per sector
    let mut disk = MemDisk::new(image);
    assert!(matches!(Fat32::new(&mut disk), Err(FsError::InvalidGeometry)));
}

#[test]
fn geometry_follows_the_boot_record() {
    let mut disk = MemDisk::new(blank_volume(40));
    let fat = Fat32::new(&mut disk).unwrap();
    assert_eq!(fat.get_fat_size(), 1);
    assert_eq!(fat.get_root_dir_sector(), 0);
    assert_eq!(fat.get_first_data_sector(), 2);
    assert_eq!(fat.get_bytes_in_cluster(), 512);
    assert_eq!(fat.first_sector_of_cluster(2), 2);
    assert_eq!(fat.first_sector_of_cluster(7), 7);
    assert_eq!(fat.get_total_clusters(), 38);
    assert_eq!(fat.ebpb.root_dir_cluster, 2);
    assert_eq!(fat.ebpb.bpb.bytes_per_sector, 512);
}
