//! Page-table entries: a physical frame address and its attribute
//! bits packed in one 64-bit word.

use vstd::prelude::*;

use crate::frame::{Frame, PAGE_SIZE};

verus! {

/// Entries in one page table.
pub const ENTRY_COUNT: usize = 512;

/// Attribute bit: entry present.
pub const PAGE_PRESENT: u64 = 0x1;

/// Attribute bit: writable.
pub const PAGE_WRITABLE: u64 = 0x2;

/// Attribute bit: reachable from user mode.
pub const PAGE_USER_ACCESSIBLE: u64 = 0x4;

/// Attribute bit: write-through caching.
pub const PAGE_WRITE_THROUGH: u64 = 0x8;

/// Attribute bit: caching disabled.
pub const PAGE_NO_CACHE: u64 = 0x10;

/// Attribute bit: accessed.
pub const PAGE_ACCESSED: u64 = 0x20;

/// Attribute bit: written to.
pub const PAGE_DIRTY: u64 = 0x40;

/// Attribute bit: huge page.
pub const PAGE_HUGE: u64 = 0x80;

/// Attribute bit: kept across address-space switches.
pub const PAGE_GLOBAL: u64 = 0x100;

/// Attribute bit: no code execution.
pub const PAGE_NO_EXECUTE: u64 = 0x8000_0000_0000_0000;

/// All attribute bits this design uses.
pub const PAGE_FLAGS_ALL: u64 = 0x8000_0000_0000_01FFu64;

/// Mask of the physical frame address inside an entry.
pub const PAGE_ADDRESS_MASK: u64 = 0x000F_FFFF_FFFF_F000u64;

/// A bundle of page attribute bits.
#[derive(Debug, Clone, Copy, PartialEq, Eq, Structural)]
pub struct EntryFlags {
    /// The packed attribute bits.
    pub bits: u64,
}

impl EntryFlags {
    /// Keep only the attribute bits this design knows.
    pub fn from_bits_truncate(bits: u64) -> (r: EntryFlags)
        ensures
            r.bits == bits & PAGE_FLAGS_ALL,
    {
        EntryFlags { bits: bits & PAGE_FLAGS_ALL }
    }

    /// Whether every bit of `mask` is set.
    pub fn contains(&self, mask: u64) -> (r: bool)
        ensures
            r == (self.bits & mask == mask),
    {
        self.bits & mask == mask
    }
}

/// One page-table entry.
#[derive(Debug, Clone, Copy, PartialEq, Eq, Structural)]
pub struct Entry(pub u64);

impl Entry {
    /// Whether the entry holds nothing at all.
    pub fn is_unused(&self) -> (r: bool)
        ensures
            r == (self.0 == 0),
    {
        self.0 == 0
    }

    /// Clear the entry.
    pub fn set_unused(&mut self)
        ensures
            final(self).0 == 0,
    {
        self.0 = 0;
    }

    /// The entry's attribute bits.
    pub fn flags(&self) -> (r: EntryFlags)
        ensures
            r.bits == self.0 & PAGE_FLAGS_ALL,
    {
        EntryFlags::from_bits_truncate(self.0)
    }

    /// The frame the entry points at, when it is present.
    pub fn pointed_frame(&self) -> (r: Option<Frame>)
        ensures
            self.0 & PAGE_PRESENT == PAGE_PRESENT ==> r == Some(
                Frame { number: (((self.0 & PAGE_ADDRESS_MASK) as usize) as int / PAGE_SIZE as int) as usize },
            ),
            self.0 & PAGE_PRESENT != PAGE_PRESENT ==> r is None,
    {
        proof {
            let v = self.0;
            assert(v & 0x8000_0000_0000_01FFu64 & 1u64 == v & 1u64) by (bit_vector);
        }
        if self.flags().contains(PAGE_PRESENT) {
            Some(Frame::containing_address(#[verifier::truncate] ((self.0 & PAGE_ADDRESS_MASK) as usize)))
        } else {
            None
        }
    }

    /// Point the entry at a frame with the given attributes. The
    /// frame's address must fit the address field exactly.
    pub fn set(&mut self, frame: Frame, flags: EntryFlags)
        requires
            frame.number * PAGE_SIZE <= usize::MAX,
            (frame.number * PAGE_SIZE) as u64 & !PAGE_ADDRESS_MASK == 0,
        ensures
            final(self).0 == (frame.number * PAGE_SIZE) as u64 | flags.bits,
    {
        let start = frame.start_address();
        self.0 = (start as u64) | flags.bits;
    }
}

} // verus!
