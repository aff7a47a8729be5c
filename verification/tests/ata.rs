//! Driver protocol behaviour against scripted port devices.

use kurumi::ata::{lba_byte, sector_count_byte, select_byte, Ata};
use kurumi::disk::{Disk, DiskError};
use kurumi::io::PortIo;

/// Counts every port access and never reports a ready device.
struct CountingPorts {
    accesses: usize,
}

impl PortIo for CountingPorts {
    fn outb(&mut self, _port: u16, _value: u8) {
        self.accesses += 1;
    }

    fn inb(&mut self, _port: u16) -> u8 {
        self.accesses += 1;
        0
    }

    fn inw(&mut self, _port: u16) -> u16 {
        self.accesses += 1;
        0
    }
}

/// A device that serves `good_sectors` sectors and then raises the
/// given status bits on the next poll.
struct ScriptedPorts {
    good_sectors: usize,
    then_status: u8,
    sectors_served: usize,
    words_in_sector: usize,
    word_counter: u16,
}

impl ScriptedPorts {
    fn new(good_sectors: usize, then_status: u8) -> ScriptedPorts {
        ScriptedPorts {
            good_sectors,
            then_status,
            sectors_served: 0,
            words_in_sector: 0,
            word_counter: 0,
        }
    }
}

const STATUS_READY: u8 = 0x08;

impl PortIo for ScriptedPorts {
    fn outb(&mut self, _port: u16, _value: u8) {}

    fn inb(&mut self, port: u16) -> u8 {
        if port == 0x3F6 {
            if self.sectors_served < self.good_sectors {
                STATUS_READY
            } else {
                self.then_status
            }
        } else {
            0
        }
    }

    fn inw(&mut self, _port: u16) -> u16 {
        let w = self.word_counter;
        self.word_counter = self.word_counter.wrapping_add(1);
        self.words_in_sector += 1;
        if self.words_in_sector == 256 {
            self.words_in_sector = 0;
            self.sectors_served += 1;
        }
        w
    }
}

#[test]
fn empty_buffer_is_rejected_without_hardware_access() {
    let mut ata = Ata::new(CountingPorts { accesses: 0 });
    let mut buffer: Vec<u8> = Vec::new();
    assert_eq!(ata.read(0, &mut buffer), Err(DiskError::EmptyBuffer));
    assert_eq!(ata.ports.accesses, 0);
}

#[test]
fn unaligned_buffer_is_rejected_without_hardware_access() {
    let mut ata = Ata::new(CountingPorts { accesses: 0 });
    let mut buffer = vec![0u8; 100];
    assert_eq!(ata.read(0, &mut buffer), Err(DiskError::UnalignedBuffer));
    assert_eq!(ata.ports.accesses, 0);
}

#[test]
fn oversized_request_is_rejected_without_hardware_access() {
    let mut ata = Ata::new(CountingPorts { accesses: 0 });
    let mut buffer = vec![0u8; 128 * 512];
    assert_eq!(ata.read(0, &mut buffer), Err(DiskError::TooManySectors));
    assert_eq!(ata.ports.accesses, 0);
}

#[test]
fn out_of_range_address_is_rejected_without_hardware_access() {
    let mut ata = Ata::new(CountingPorts { accesses: 0 });
    let mut buffer = vec![0u8; 512];
    assert_eq!(ata.read(1 << 28, &mut buffer), Err(DiskError::LbaOutOfRange));
    assert_eq!(ata.ports.accesses, 0);
}

#[test]
fn error_before_first_sector_fails() {
    let mut ata = Ata::new(ScriptedPorts::new(0, 0x01));
    let mut buffer = vec![0u8; 4 * 512];
    assert_eq!(ata.read(0, &mut buffer), Err(DiskError::NoSectorsRead));
}

#[test]
fn error_after_some_sectors_returns_partial_count() {
    let mut ata = Ata::new(ScriptedPorts::new(1, 0x01));
    let mut buffer = vec![0u8; 4 * 512];
    assert_eq!(ata.read(0, &mut buffer), Ok(1));

    let mut ata = Ata::new(ScriptedPorts::new(3, 0x01));
    let mut buffer = vec![0u8; 4 * 512];
    assert_eq!(ata.read(0, &mut buffer), Ok(3));
}

#[test]
fn drive_fault_is_fatal_whatever_succeeded_before() {
    let mut ata = Ata::new(ScriptedPorts::new(2, 0x20));
    let mut buffer = vec![0u8; 4 * 512];
    assert_eq!(ata.read(0, &mut buffer), Err(DiskError::DriveFault));
    // Two sectors had already been transferred when the fault hit.
    assert_eq!(ata.ports.sectors_served, 2);
}

#[test]
fn fault_and_error_bits_together_follow_the_error_path() {
    let mut ata = Ata::new(ScriptedPorts::new(2, 0x21));
    let mut buffer = vec![0u8; 4 * 512];
    assert_eq!(ata.read(0, &mut buffer), Ok(2));
}

#[test]
fn transferred_words_land_little_endian() {
    let mut ata = Ata::new(ScriptedPorts::new(1, 0x01));
    let mut buffer = vec![0u8; 512];
    assert_eq!(ata.read(0, &mut buffer), Ok(1));
    // Word k is k, stored low byte first.
    assert_eq!(buffer[0], 0);
    assert_eq!(buffer[1], 0);
    assert_eq!(buffer[2], 1);
    assert_eq!(buffer[3], 0);
    assert_eq!(buffer[510], 255);
    assert_eq!(buffer[511], 0);
}

#[test]
fn dead_device_times_out() {
    // Status forever busy: never a terminal condition.
    let mut ata = Ata::new(ScriptedPorts::new(0, 0x80));
    let mut buffer = vec![0u8; 512];
    assert_eq!(ata.read(0, &mut buffer), Err(DiskError::Timeout));
}

#[test]
fn write_is_unsupported() {
    let mut ata = Ata::new(CountingPorts { accesses: 0 });
    let buffer = vec![0u8; 512];
    assert_eq!(ata.write_at(0, &buffer), Err(DiskError::WriteUnsupported));
}

#[test]
fn register_bytes_follow_the_protocol() {
    // Top four address bits into the select byte, master + mode bits set.
    assert_eq!(select_byte(0x0ABC_DEF0), 0xE0 | 0x0A | 0x40);
    assert_eq!(select_byte(0), 0xE0 | 0x40);
    // The three low address bytes, lowest first.
    assert_eq!(lba_byte(0x00AB_CDEF, 0), 0xEF);
    assert_eq!(lba_byte(0x00AB_CDEF, 1), 0xCD);
    assert_eq!(lba_byte(0x00AB_CDEF, 2), 0xAB);
    // Sector count from the buffer length.
    assert_eq!(sector_count_byte(512), 1);
    assert_eq!(sector_count_byte(127 * 512), 127);
}
