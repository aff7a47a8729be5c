//! Interrupt-descriptor-table entries: 16-byte gate descriptors whose
//! handler offset is split over three fields.

use vstd::prelude::*;

verus! {

/// Descriptor flag: descriptor present.
pub const IDT_PRESENT: u8 = 0x80;

/// Descriptor flag: privilege ring 0.
pub const IDT_RING_0: u8 = 0x00;

/// Descriptor flag: privilege ring 3.
pub const IDT_RING_3: u8 = 0x60;

/// Descriptor flag: storage segment.
pub const IDT_SS: u8 = 0x10;

/// Descriptor type: interrupt gate.
pub const IDT_INTERRUPT: u8 = 0x0E;

/// Descriptor type: trap gate.
pub const IDT_TRAP: u8 = 0x0F;

/// The code-segment selector interrupt handlers run under.
pub const KERNEL_CODE_SELECTOR: u16 = 0x08;

/// A bundle of descriptor flags.
#[derive(Debug, Clone, Copy, PartialEq, Eq, Structural)]
pub struct IdtFlags {
    /// The packed flag bits.
    pub bits: u8,
}

/// One interrupt-descriptor-table entry.
#[derive(Debug, Clone, Copy, PartialEq, Eq, Structural)]
pub struct IdtEntry {
    /// Handler offset bits 0..16.
    pub offsetl: u16,
    /// Code segment selector.
    pub selector: u16,
    /// Interrupt-stack-table index in the low bits.
    pub ist: u8,
    /// Descriptor type and attributes.
    pub flags: u8,
    /// Handler offset bits 16..32.
    pub offsetm: u16,
    /// Handler offset bits 32..64.
    pub offseth: u32,
    /// Reserved.
    pub zero: u32,
}

impl IdtEntry {
    /// An absent entry: every field zero.
    pub fn new() -> (r: IdtEntry)
        ensures
            r == (IdtEntry {
                offsetl: 0,
                selector: 0,
                ist: 0,
                flags: 0,
                offsetm: 0,
                offseth: 0,
                zero: 0,
            }),
    {
        IdtEntry { offsetl: 0, selector: 0, ist: 0, flags: 0, offsetm: 0, offseth: 0, zero: 0 }
    }

    /// Set the descriptor type and attributes.
    pub fn set_flags(&mut self, flags: IdtFlags)
        ensures
            *final(self) == (IdtEntry { flags: flags.bits, ..*old(self) }),
    {
        self.flags = flags.bits;
    }

    /// Point the entry at a handler: the selector, and the handler
    /// address split over the three offset fields.
    pub fn set_offset(&mut self, selector: u16, base: usize)
        ensures
            *final(self) == (IdtEntry {
                selector,
                offsetl: base as u16,
                offsetm: ((base as u64) >> 16) as u16,
                offseth: ((base as u64) >> 32) as u32,
                ..*old(self)
            }),
    {
        self.selector = selector;
        self.offsetl = #[verifier::truncate] (base as u16);
        self.offsetm = #[verifier::truncate] (((base as u64) >> 16) as u16);
        self.offseth = #[verifier::truncate] (((base as u64) >> 32) as u32);
    }

    /// Install a handler address: present, ring 0, interrupt descriptor,
    /// kernel code selector.
    pub fn set_func(&mut self, func: usize)
        ensures
            *final(self) == (IdtEntry {
                selector: KERNEL_CODE_SELECTOR,
                offsetl: func as u16,
                offsetm: ((func as u64) >> 16) as u16,
                offseth: ((func as u64) >> 32) as u32,
                flags: IDT_PRESENT | IDT_RING_0 | IDT_INTERRUPT,
                ..*old(self)
            }),
    {
        self.set_flags(IdtFlags { bits: IDT_PRESENT | IDT_RING_0 | IDT_INTERRUPT });
        self.set_offset(KERNEL_CODE_SELECTOR, func);
    }
}

} // verus!
