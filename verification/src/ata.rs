//! ATA PIO read protocol (28-bit logical block addressing).
//!
//! One read: select the device and the top four address bits, program the
//! sector count and the three low address bytes, issue the "read sectors"
//! command, then for each sector poll the status register until a
//! terminal condition shows, classify it, and transfer 256 data words.
//!
//! The status register distinguishes two failures that are deliberately
//! not interchangeable: the error bit ends the call with the count of
//! sectors already transferred (partial result; an error before the first
//! sector is its own failure), while the drive-fault bit is fatal no
//! matter how many sectors succeeded. The poll is bounded here so that
//! every call terminates; the bare protocol specifies an unbounded wait,
//! so a bound that runs out is reported as its own error instead of
//! hanging.

use vstd::prelude::*;

use crate::disk::{valid_read_len, Disk, DiskError, MAX_SECTORS_PER_READ, SECTOR_SIZE};
use crate::io::PortIo;

verus! {

/// Data port of the primary ATA bus (relative to I/O base 0x1F0).
pub const ATA_DATA: u16 = 0x1F0;

/// Sector-count register.
pub const ATA_SECTOR_COUNT: u16 = 0x1F2;

/// Low byte of the logical block address.
pub const ATA_LBA_LOW: u16 = 0x1F3;

/// Middle byte of the logical block address.
pub const ATA_LBA_MID: u16 = 0x1F4;

/// High byte of the logical block address.
pub const ATA_LBA_HIGH: u16 = 0x1F5;

/// Drive/head register: device select plus the top four address bits.
pub const ATA_DRIVE: u16 = 0x1F6;

/// Command register.
pub const ATA_COMMAND: u16 = 0x1F7;

/// Alternate status register, polled between transfers.
pub const ATA_STATUS: u16 = 0x3F6;

/// The "read sectors" command byte.
pub const READ_SECTORS: u8 = 0x20;

/// Status bit: device busy.
pub const STATUS_BUSY: u8 = 0x80;

/// Status bit: drive fault.
pub const STATUS_DRIVE_FAULT: u8 = 0x20;

/// Status bit: data request ready.
pub const STATUS_DATA_REQUEST: u8 = 0x08;

/// Status bit: error.
pub const STATUS_ERROR: u8 = 0x01;

/// How many status reads one poll may spend before giving up.
pub const MAX_POLL_TRIES: u32 = 1000000;

/// First block address that no longer fits in 28 bits.
pub const LBA_LIMIT: u64 = 0x10000000;

/// A status byte on which the poll stops: ready (not busy, data request
/// set), error, or drive fault.
pub open spec fn terminal_status(status: u8) -> bool {
    ||| (status & STATUS_BUSY == 0 && status & STATUS_DATA_REQUEST != 0)
    ||| status & STATUS_ERROR != 0
    ||| status & STATUS_DRIVE_FAULT != 0
}

/// What the driver does with a terminal status before transferring
/// sector number `sector` (counted from zero).
#[derive(Debug, Clone, Copy, PartialEq, Eq, Structural)]
pub enum SectorStep {
    /// No failure bit: transfer this sector's data words.
    Transfer,
    /// Error bit after at least one sector: end the call early, reporting
    /// how many sectors arrived.
    CompleteEarly(u8),
    /// Error bit before the first sector, or a drive fault: fail the call.
    Fail(DiskError),
}

/// The per-sector decision of the read protocol. The error bit yields a
/// partial result once a sector has been transferred and a failure
/// before that; the drive-fault bit is fatal regardless of the sector
/// count reached.
pub open spec fn spec_sector_step(status: u8, sector: u8) -> SectorStep {
    if status & STATUS_ERROR != 0 {
        if sector == 0 {
            SectorStep::Fail(DiskError::NoSectorsRead)
        } else {
            SectorStep::CompleteEarly(sector)
        }
    } else if status & STATUS_DRIVE_FAULT != 0 {
        SectorStep::Fail(DiskError::DriveFault)
    } else {
        SectorStep::Transfer
    }
}

/// Classify a terminal status byte before sector number `sector`.
pub fn sector_step(status: u8, sector: u8) -> (r: SectorStep)
    ensures
        r == spec_sector_step(status, sector),
{
    if status & STATUS_ERROR != 0 {
        if sector == 0 {
            SectorStep::Fail(DiskError::NoSectorsRead)
        } else {
            SectorStep::CompleteEarly(sector)
        }
    } else if status & STATUS_DRIVE_FAULT != 0 {
        SectorStep::Fail(DiskError::DriveFault)
    } else {
        SectorStep::Transfer
    }
}

/// The device-select byte of a 28-bit read: master device (0xE0), the
/// addressing-mode bit (0x40), and the top four address bits.
pub fn select_byte(block: u64) -> (r: u8)
    ensures
        r == (0xE0u8 | ((block >> 24) & 0x0F) as u8 | 0x40u8),
{
    proof {
        assert((block >> 24) & 0x0F < 0x10) by (bit_vector);
    }
    0xE0 | ((block >> 24) & 0x0F) as u8 | 0x40
}

/// One byte of the logical block address: bits `8 * index` and up.
pub fn lba_byte(block: u64, index: u64) -> (r: u8)
    requires
        index < 4,
    ensures
        r == ((block >> (8 * index)) & 0xFF) as u8,
{
    proof {
        assert((block >> (8 * index)) & 0xFF < 0x100) by (bit_vector)
            requires
                index < 4,
        ;
    }
    ((block >> (8 * index)) & 0xFF) as u8
}

/// The sector-count register value for a buffer of `len` bytes.
pub fn sector_count_byte(len: usize) -> (r: u8)
    requires
        valid_read_len(len as nat),
    ensures
        r as int == len as int / (SECTOR_SIZE as int),
{
    (len / SECTOR_SIZE) as u8
}

/// The ATA PIO disk driver, read-only in this design, over some port
/// access implementation.
pub struct Ata<P: PortIo> {
    /// The port access this driver owns.
    pub ports: P,
}

impl<P: PortIo> Ata<P> {
    /// Take ownership of the ports and stand up the driver.
    pub fn new(ports: P) -> (r: Ata<P>) {
        Ata { ports }
    }

    /// Poll the status register until a terminal condition holds, or
    /// until the poll bound runs out (`None`).
    fn poll(&mut self) -> (r: Option<u8>)
        ensures
            r matches Some(status) ==> terminal_status(status),
    {
        let mut tries: u32 = 0;
        while tries < MAX_POLL_TRIES
            decreases MAX_POLL_TRIES - tries,
        {
            let status = self.ports.inb(ATA_STATUS);
            if (status & STATUS_BUSY == 0 && status & STATUS_DATA_REQUEST != 0) || status
                & STATUS_ERROR != 0 || status & STATUS_DRIVE_FAULT != 0 {
                return Some(status);
            }
            tries += 1;
        }
        None
    }
}

impl<P: PortIo> Disk for Ata<P> {
    /// Nothing is promised about what real hardware stores.
    open spec fn contents(&self) -> Seq<u8> {
        Seq::empty()
    }

    open spec fn reliable(&self) -> bool {
        false
    }

    fn read(&mut self, block: u64, buffer: &mut Vec<u8>) -> (r: Result<u8, DiskError>)
        ensures
            block >= LBA_LIMIT && valid_read_len(old(buffer)@.len()) ==> {
                &&& r == Err::<u8, DiskError>(DiskError::LbaOutOfRange)
                &&& *final(buffer) == *old(buffer)
                &&& *final(self) == *old(self)
            },
            valid_read_len(old(buffer)@.len()) && block < LBA_LIMIT ==> (r is Ok || r == Err::<
                u8,
                DiskError,
            >(DiskError::NoSectorsRead) || r == Err::<u8, DiskError>(DiskError::DriveFault) || r
                == Err::<u8, DiskError>(DiskError::Timeout)),
    {
        let len = buffer.len();
        if len == 0 {
            return Err(DiskError::EmptyBuffer);
        }
        if len % SECTOR_SIZE != 0 {
            return Err(DiskError::UnalignedBuffer);
        }
        if len / SECTOR_SIZE > MAX_SECTORS_PER_READ {
            return Err(DiskError::TooManySectors);
        }
        if block >= LBA_LIMIT {
            return Err(DiskError::LbaOutOfRange);
        }
        let sector_count: u8 = sector_count_byte(len);
        self.ports.outb(ATA_DRIVE, select_byte(block));
        self.ports.outb(ATA_SECTOR_COUNT, sector_count);
        self.ports.outb(ATA_LBA_LOW, lba_byte(block, 0));
        self.ports.outb(ATA_LBA_MID, lba_byte(block, 1));
        self.ports.outb(ATA_LBA_HIGH, lba_byte(block, 2));
        self.ports.outb(ATA_COMMAND, READ_SECTORS);

        let mut sector: u8 = 0;
        while sector < sector_count
            invariant
                block < LBA_LIMIT,
                sector <= sector_count,
                sector_count as nat == len as nat / (SECTOR_SIZE as nat),
                1 <= sector_count as nat <= MAX_SECTORS_PER_READ as nat,
                len as nat % (SECTOR_SIZE as nat) == 0,
                buffer@.len() == len,
                old(buffer)@.len() == len,
                forall|j: int|
                    sector as int * SECTOR_SIZE <= j < len ==> buffer@[j] == old(buffer)@[j],
            decreases sector_count - sector,
        {
            let status = match self.poll() {
                Some(status) => status,
                None => { return Err(DiskError::Timeout) },
            };
            match sector_step(status, sector) {
                SectorStep::Fail(e) => { return Err(e) },
                SectorStep::CompleteEarly(done) => { return Ok(done) },
                SectorStep::Transfer => {
                    let base: usize = sector as usize * SECTOR_SIZE;
                    let mut w: usize = 0;
                    while w < SECTOR_SIZE / 2
                        invariant
                            w <= SECTOR_SIZE / 2,
                            base + SECTOR_SIZE <= len,
                            buffer@.len() == len,
                            old(buffer)@.len() == len,
                            forall|j: int|
                                base + 2 * w <= j < len ==> buffer@[j] == old(buffer)@[j],
                        decreases SECTOR_SIZE / 2 - w,
                    {
                        let word = self.ports.inw(ATA_DATA);
                        buffer[base + 2 * w] = #[verifier::truncate] (word as u8);
                        buffer[base + 2 * w + 1] = #[verifier::truncate] ((word >> 8) as u8);
                        w += 1;
                    }
                    // Post-transfer settle time: a few dummy status reads
                    // before polling for the next sector.
                    let mut d: u8 = 0;
                    while d < 4
                        decreases 4 - d,
                    {
                        self.ports.inb(ATA_STATUS);
                        d += 1;
                    }
                },
            }
            sector += 1;
        }
        Ok(sector_count)
    }

    fn write_at(&mut self, _block: u64, _buffer: &Vec<u8>) -> (r: Result<u8, DiskError>) {
        Err(DiskError::WriteUnsupported)
    }
}

} // verus!
