//! The descriptor-table pointer handed to the processor when a table
//! is loaded, and the interrupt-entry shape such a table is made of.

use vstd::prelude::*;

verus! {

/// Size of one interrupt entry in bytes.
pub const IDT_ENTRY_SIZE: usize = 16;

/// One interrupt entry, made directly for a handler.
#[derive(Debug, Clone, Copy, PartialEq, Eq, Structural)]
pub struct IdtEntry {
    /// Handler offset bits 0..16.
    pub offsetl: u16,
    /// Code segment selector.
    pub selector: u16,
    /// Interrupt-stack-table index in the low bits.
    pub ist: u8,
    /// Descriptor type and attributes.
    pub flags: u8,
    /// Handler offset bits 16..32.
    pub offsetm: u16,
    /// Handler offset bits 32..64.
    pub offseth: u32,
    /// Reserved.
    pub zero: u32,
}

impl IdtEntry {
    /// An entry pointing at `handler` through the given code-segment
    /// selector: present, ring 0, interrupt type.
    pub fn new(handler: usize, gdt_code_selector: u16) -> (r: IdtEntry)
        ensures
            r == (IdtEntry {
                selector: gdt_code_selector,
                offsetl: handler as u16,
                offsetm: ((handler as u64) >> 16) as u16,
                offseth: ((handler as u64) >> 32) as u32,
                ist: 0,
                flags: 0x8E,
                zero: 0,
            }),
    {
        IdtEntry {
            selector: gdt_code_selector,
            offsetl: #[verifier::truncate] (handler as u16),
            offsetm: #[verifier::truncate] (((handler as u64) >> 16) as u16),
            offseth: #[verifier::truncate] (((handler as u64) >> 32) as u32),
            ist: 0,
            flags: 0x8E,
            zero: 0,
        }
    }
}

/// What the load instruction takes: the table's limit (its byte size
/// less one boundary) and the address of its memory.
#[derive(Debug, Clone, Copy, PartialEq, Eq, Structural)]
pub struct DescriptorTablePointer {
    /// Byte size of the table.
    pub limit: u16,
    /// Address of the table's first entry.
    pub base: usize,
}

impl DescriptorTablePointer {
    /// A pointer to a table of `count` entries at `base`.
    fn new(base: usize, count: usize) -> (r: DescriptorTablePointer)
        requires
            count * IDT_ENTRY_SIZE < 0x10000,
        ensures
            r.base == base,
            r.limit == count * IDT_ENTRY_SIZE,
    {
        DescriptorTablePointer { base, limit: (count * IDT_ENTRY_SIZE) as u16 }
    }

    /// A pointer to an interrupt descriptor table of `count` entries.
    pub fn new_idtp(base: usize, count: usize) -> (r: DescriptorTablePointer)
        requires
            count * IDT_ENTRY_SIZE < 0x10000,
        ensures
            r.base == base,
            r.limit == count * IDT_ENTRY_SIZE,
    {
        Self::new(base, count)
    }
}

} // verus!
