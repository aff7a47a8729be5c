//! The in-memory device's partial-result semantics, and boot-record
//! decoding.

use kurumi::bpb::Ebpb;
use kurumi::disk::{Disk, DiskError, MemDisk};

#[test]
fn reads_within_the_image_fill_the_buffer() {
    let mut image = vec![0u8; 4 * 512];
    for i in 0..image.len() {
        image[i] = (i % 251) as u8;
    }
    let mut disk = MemDisk::new(image.clone());
    let mut buffer = vec![0u8; 2 * 512];
    assert_eq!(disk.read(1, &mut buffer), Ok(2));
    assert_eq!(&buffer[..], &image[512..3 * 512]);
}

#[test]
fn a_read_past_the_end_is_served_partially() {
    let mut disk = MemDisk::new(vec![7u8; 3 * 512]);
    let mut buffer = vec![0u8; 2 * 512];
    assert_eq!(disk.read(2, &mut buffer), Ok(1));
    assert!(buffer[..512].iter().all(|&b| b == 7));
    assert!(buffer[512..].iter().all(|&b| b == 0));
}

#[test]
fn a_read_wholly_past_the_end_serves_nothing() {
    let mut disk = MemDisk::new(vec![7u8; 3 * 512]);
    let mut buffer = vec![0u8; 512];
    assert_eq!(disk.read(3, &mut buffer), Err(DiskError::NoSectorsRead));
}

#[test]
fn the_memory_device_checks_the_same_preconditions() {
    let mut disk = MemDisk::new(vec![0u8; 512]);
    let mut empty: Vec<u8> = Vec::new();
    assert_eq!(disk.read(0, &mut empty), Err(DiskError::EmptyBuffer));
    let mut odd = vec![0u8; 513];
    assert_eq!(disk.read(0, &mut odd), Err(DiskError::UnalignedBuffer));
    let mut huge = vec![0u8; 128 * 512];
    assert_eq!(disk.read(0, &mut huge), Err(DiskError::TooManySectors));
    let buffer = vec![0u8; 512];
    assert_eq!(disk.write_at(0, &buffer), Err(DiskError::WriteUnsupported));
}

#[test]
fn boot_record_fields_come_from_their_fixed_offsets() {
    let mut sector = vec![0u8; 512];
    sector[0] = 0xEB; // jump
    sector[3..11].copy_from_slice(b"mkfs.fat");
    sector[11] = 0x00;
    sector[12] = 0x02; // 512 bytes per sector
    sector[13] = 8; // sectors per cluster
    sector[14] = 32; // reserved sectors
    sector[16] = 2; // FATs
    sector[21] = 0xF8; // media descriptor
    sector[32] = 0x00;
    sector[33] = 0x00;
    sector[34] = 0x01; // total sectors = 0x10000
    sector[36] = 0xE9;
    sector[37] = 0x03; // sectors per FAT = 1001
    sector[44] = 2; // root directory cluster
    sector[66] = 0x29; // signature
    sector[71..82].copy_from_slice(b"NO NAME    ");
    sector[82..90].copy_from_slice(b"FAT32   ");

    let ebpb = Ebpb::parse(&sector);
    assert_eq!(ebpb.bpb.bootjmp[0], 0xEB);
    assert_eq!(&ebpb.bpb.oem_identifier, b"mkfs.fat");
    assert_eq!(ebpb.bpb.bytes_per_sector, 512);
    assert_eq!(ebpb.bpb.sectors_per_cluster, 8);
    assert_eq!(ebpb.bpb.reserved_sectors_count, 32);
    assert_eq!(ebpb.bpb.table_count, 2);
    assert_eq!(ebpb.bpb.media_descriptor_type, 0xF8);
    assert_eq!(ebpb.bpb.total_sectors_large, 0x10000);
    assert_eq!(ebpb.sectors_per_fat, 1001);
    assert_eq!(ebpb.root_dir_cluster, 2);
    assert_eq!(ebpb.signature, 0x29);
    assert_eq!(&ebpb.volume_label, b"NO NAME    ");
    assert_eq!(&ebpb.system_identifier, b"FAT32   ");
}
