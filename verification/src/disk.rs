//! The disk capability: "read N sectors starting at logical block address B
//! into a buffer", polymorphic over device variants, plus an in-memory
//! device used as a test double.
//!
//! A device is modelled by the byte sequence [`Disk::contents`] it stores.
//! A read that reports `Ok(k)` has filled the first `k` whole sectors of
//! the buffer with the corresponding bytes of the contents, wherever those
//! bytes exist; a device for which nothing of the sort can be promised
//! (real hardware) models its contents as empty, which makes those clauses
//! vacuous. [`Disk::reliable`] marks the devices that owe success whenever
//! the requested range lies inside the contents.

use vstd::prelude::*;

verus! {

/// Size of one device sector in bytes.
pub const SECTOR_SIZE: usize = 512;

/// Largest sector count one read may request (28-bit addressing protocol limit).
pub const MAX_SECTORS_PER_READ: usize = 127;

/// Failures of the disk capability, one variant per distinct condition.
#[derive(Debug, Clone, Copy, PartialEq, Eq, Structural)]
pub enum DiskError {
    /// The buffer had length zero; no hardware was touched.
    EmptyBuffer,
    /// The buffer length was not a multiple of the sector size; no hardware was touched.
    UnalignedBuffer,
    /// More than 127 sectors were requested at once; no hardware was touched.
    TooManySectors,
    /// The block address does not fit in 28 bits; no hardware was touched.
    LbaOutOfRange,
    /// The device raised its error bit before the first sector arrived.
    NoSectorsRead,
    /// The device raised its drive-fault bit; fatal for the whole call.
    DriveFault,
    /// The device never reached a terminal status within the poll bound.
    Timeout,
    /// Writing is not implemented in this design.
    WriteUnsupported,
}

/// True when a buffer of `len` bytes may be handed to [`Disk::read`]:
/// nonzero, whole sectors only, and at most 127 of them.
pub open spec fn valid_read_len(len: nat) -> bool {
    &&& len > 0
    &&& len % (SECTOR_SIZE as nat) == 0
    &&& len / (SECTOR_SIZE as nat) <= MAX_SECTORS_PER_READ as nat
}

/// The error owed for an invalid buffer length, checked in the order the
/// driver checks: emptiness, then alignment, then the sector-count cap.
pub open spec fn read_len_error(len: nat) -> DiskError {
    if len == 0 {
        DiskError::EmptyBuffer
    } else if len % (SECTOR_SIZE as nat) != 0 {
        DiskError::UnalignedBuffer
    } else {
        DiskError::TooManySectors
    }
}

/// Read `k` sectors starting at `block`: every byte of the first `k`
/// sectors of the buffer that has a counterpart in the device contents
/// equals that counterpart, and the rest of the buffer is untouched.
pub open spec fn read_filled(
    contents: Seq<u8>,
    block: u64,
    old_buf: Seq<u8>,
    new_buf: Seq<u8>,
    k: nat,
) -> bool {
    &&& forall|i: int|
        0 <= i < k * SECTOR_SIZE && block * SECTOR_SIZE + i < contents.len()
            ==> new_buf[i] == contents[block * SECTOR_SIZE + i]
    &&& forall|i: int| k * SECTOR_SIZE <= i < new_buf.len() ==> new_buf[i] == old_buf[i]
}

/// The capability every concrete device (the ATA PIO driver or a test
/// double) must satisfy. Reads have partial-result semantics: a count
/// below the requested one is valid but incomplete; the caller decides
/// whether a short read is acceptable.
pub trait Disk: Sized {
    /// The bytes this device stores, as far as anything is promised of
    /// them. A device that promises nothing models an empty sequence.
    spec fn contents(&self) -> Seq<u8>;

    /// Whether this device owes success for every in-range, well-formed read.
    spec fn reliable(&self) -> bool;

    /// Read `buffer.len() / 512` sectors starting at logical block
    /// address `block` into `buffer`, returning how many sectors arrived.
    fn read(&mut self, block: u64, buffer: &mut Vec<u8>) -> (r: Result<u8, DiskError>)
        ensures
            final(self).contents() == old(self).contents(),
            final(self).reliable() == old(self).reliable(),
            final(buffer).len() == old(buffer).len(),
            !valid_read_len(old(buffer)@.len()) ==> {
                &&& r == Err::<u8, DiskError>(read_len_error(old(buffer)@.len()))
                &&& *final(buffer) == *old(buffer)
                &&& *final(self) == *old(self)
            },
            r matches Ok(k) ==> {
                &&& valid_read_len(old(buffer)@.len())
                &&& 1 <= k as nat <= old(buffer)@.len() / (SECTOR_SIZE as nat)
                &&& read_filled(
                    old(self).contents(),
                    block,
                    old(buffer)@,
                    final(buffer)@,
                    k as nat,
                )
            },
            old(self).reliable() && valid_read_len(old(buffer)@.len()) && (block
                * SECTOR_SIZE + old(buffer)@.len() <= old(self).contents().len()) ==> r == Ok::<
                u8,
                DiskError,
            >((old(buffer)@.len() / SECTOR_SIZE as nat) as u8),
    ;

    /// Write is unimplemented by design in this scope: it must fail
    /// and touch nothing.
    fn write_at(&mut self, block: u64, buffer: &Vec<u8>) -> (r: Result<u8, DiskError>)
        ensures
            *final(self) == *old(self),
            r is Err,
    ;
}

/// An in-memory device: the test double of the disk capability. Reads
/// serve whole sectors out of the stored bytes with partial-result
/// semantics; sectors past the stored bytes are simply not served.
pub struct MemDisk {
    data: Vec<u8>,
}

impl MemDisk {
    /// Wrap a byte image as a device.
    pub fn new(data: Vec<u8>) -> (r: MemDisk)
        ensures
            r.contents() == data@,
    {
        MemDisk { data }
    }
}

impl Disk for MemDisk {
    closed spec fn contents(&self) -> Seq<u8> {
        self.data@
    }

    open spec fn reliable(&self) -> bool {
        true
    }

    fn read(&mut self, block: u64, buffer: &mut Vec<u8>) -> (r: Result<u8, DiskError>) {
        let len = buffer.len();
        if len == 0 {
            return Err(DiskError::EmptyBuffer);
        }
        if len % SECTOR_SIZE != 0 {
            return Err(DiskError::UnalignedBuffer);
        }
        if len / SECTOR_SIZE > MAX_SECTORS_PER_READ {
            return Err(DiskError::TooManySectors);
        }
        let requested: usize = len / SECTOR_SIZE;
        let stored_sectors: usize = self.data.len() / SECTOR_SIZE;
        let available: usize = if block < stored_sectors as u64 {
            stored_sectors - block as usize
        } else {
            0
        };
        let served: usize = if requested < available {
            requested
        } else {
            available
        };
        if served == 0 {
            return Err(DiskError::NoSectorsRead);
        }
        proof {
            assert(stored_sectors * SECTOR_SIZE <= self.data@.len()) by {
                vstd::arithmetic::div_mod::lemma_fundamental_div_mod(
                    self.data@.len() as int,
                    SECTOR_SIZE as int,
                );
            }
            assert((block + served) * SECTOR_SIZE <= stored_sectors * SECTOR_SIZE) by {
                vstd::arithmetic::mul::lemma_mul_inequality(
                    block as int + served as int,
                    stored_sectors as int,
                    SECTOR_SIZE as int,
                );
            }
        }
        let start: usize = block as usize * SECTOR_SIZE;
        let mut i: usize = 0;
        while i < served * SECTOR_SIZE
            invariant
                served * SECTOR_SIZE <= len,
                start + served * SECTOR_SIZE <= self.data@.len(),
                self.data@.len() <= usize::MAX,
                old(buffer)@.len() == len,
                i <= served * SECTOR_SIZE,
                buffer@.len() == len,
                self == old(self),
                forall|j: int| 0 <= j < i ==> buffer@[j] == self.data@[start + j],
                forall|j: int| i <= j < len ==> buffer@[j] == old(buffer)@[j],
            decreases served * SECTOR_SIZE - i,
        {
            buffer[i] = self.data[start + i];
            i += 1;
        }
        Ok(served as u8)
    }

    fn write_at(&mut self, _block: u64, _buffer: &Vec<u8>) -> (r: Result<u8, DiskError>) {
        Err(DiskError::WriteUnsupported)
    }
}

} // verus!
