//! Descriptor-table behaviour: handle numbering, reuse, and reads
//! that advance the cursor.

use kurumi::disk::MemDisk;
use kurumi::fat32::{Fat32, FsError};
use kurumi::fs::FsManager;

const SECTOR: usize = 512;

fn put16(image: &mut [u8], off: usize, v: u16) {
    image[off] = v as u8;
    image[off + 1] = (v >> 8) as u8;
}

fn put32(image: &mut [u8], off: usize, v: u32) {
    image[off] = v as u8;
    image[off + 1] = (v >> 8) as u8;
    image[off + 2] = (v >> 16) as u8;
    image[off + 3] = (v >> 24) as u8;
}

fn put_short_entry(image: &mut [u8], c: u32, slot: usize, name: &[u8; 11], attr: u8, cluster: u32, size: u32) {
    let off = (2 + (c as usize - 2)) * SECTOR + slot * 32;
    image[off..off + 11].copy_from_slice(name);
    image[off + 11] = attr;
    put16(image, off + 20, (cluster >> 16) as u16);
    put16(image, off + 26, cluster as u16);
    put32(image, off + 28, size);
}

/// A volume with two one-cluster files in the root directory.
fn volume() -> Vec<u8> {
    let mut image = vec![0u8; 40 * SECTOR];
    put16(&mut image, 11, 512);
    image[13] = 1;
    put16(&mut image, 14, 1);
    image[16] = 1;
    put16(&mut image, 22, 1);
    put32(&mut image, 32, 40);
    put32(&mut image, 44, 2);
    put32(&mut image, SECTOR + 2 * 4, 0x0FFFFFFF);
    put32(&mut image, SECTOR + 10 * 4, 0x0FFFFFFF);
    put32(&mut image, SECTOR + 11 * 4, 0x0FFFFFFF);
    put_short_entry(&mut image, 2, 0, b"ALPHA      ", 0x20, 10, 512);
    put_short_entry(&mut image, 2, 1, b"BETA       ", 0x20, 11, 512);
    for i in 0..512 {
        image[(2 + (10 - 2)) * SECTOR + i] = i as u8;
    }
    image
}

fn manager() -> FsManager<MemDisk> {
    let mut disk = MemDisk::new(volume());
    let fat = Fat32::new(&mut disk).unwrap();
    FsManager::new(fat, disk)
}

#[test]
fn handles_are_the_smallest_free_numbers() {
    let mut fs = manager();
    assert_eq!(fs.open_file("ALPHA"), Ok(0));
    assert_eq!(fs.open_file("BETA"), Ok(1));
    assert_eq!(fs.open_file("ALPHA"), Ok(2));
}

#[test]
fn a_closed_handle_number_is_reused() {
    let mut fs = manager();
    assert_eq!(fs.open_file("ALPHA"), Ok(0));
    assert_eq!(fs.open_file("BETA"), Ok(1));
    assert_eq!(fs.open_file("ALPHA"), Ok(2));
    assert_eq!(fs.close_descriptor(1), Ok(()));
    assert_eq!(fs.open_file("BETA"), Ok(1));
}

#[test]
fn closing_an_unknown_handle_fails() {
    let mut fs = manager();
    assert_eq!(fs.close_descriptor(3), Err(FsError::BadDescriptor));
    assert_eq!(fs.open_file("ALPHA"), Ok(0));
    assert_eq!(fs.close_descriptor(0), Ok(()));
    assert_eq!(fs.close_descriptor(0), Err(FsError::BadDescriptor));
}

#[test]
fn opening_a_missing_file_leaves_the_table_alone() {
    let mut fs = manager();
    assert_eq!(fs.open_file("MISSING"), Err(FsError::NotFound));
    assert_eq!(fs.open_file("ALPHA"), Ok(0));
}

#[test]
fn reading_advances_the_cursor_by_the_bytes_copied() {
    let mut fs = manager();
    let handle = fs.open_file("ALPHA").unwrap();
    let mut buffer = vec![0u8; 512];
    assert_eq!(fs.read_file(handle, &mut buffer), Ok(512));
    for i in 0..512 {
        assert_eq!(buffer[i], i as u8);
    }
    // The cursor now stands at the declared size: nothing more comes.
    assert_eq!(fs.read_file(handle, &mut buffer), Ok(0));
}

#[test]
fn reading_an_unknown_handle_fails() {
    let mut fs = manager();
    let mut buffer = vec![0u8; 512];
    assert_eq!(fs.read_file(7, &mut buffer), Err(FsError::BadDescriptor));
}
