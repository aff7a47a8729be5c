//! Interrupt gate entries, the descriptor-table pointer, physical
//! frames and page-table entries.

use kurumi::dtables::DescriptorTablePointer;
use kurumi::frame::{Frame, PAGE_SIZE};
use kurumi::idt::{IdtEntry, IdtFlags};
use kurumi::paging::{Entry, EntryFlags, PAGE_PRESENT, PAGE_WRITABLE};

#[test]
fn a_fresh_idt_entry_is_all_zero() {
    let entry = IdtEntry::new();
    assert_eq!(entry.offsetl, 0);
    assert_eq!(entry.selector, 0);
    assert_eq!(entry.flags, 0);
    assert_eq!(entry.offsetm, 0);
    assert_eq!(entry.offseth, 0);
}

#[test]
fn a_handler_address_splits_over_the_offset_fields() {
    let mut entry = IdtEntry::new();
    entry.set_offset(0x08, 0x1234_5678_9ABC_DEF0);
    assert_eq!(entry.selector, 0x08);
    assert_eq!(entry.offsetl, 0xDEF0);
    assert_eq!(entry.offsetm, 0x9ABC);
    assert_eq!(entry.offseth, 0x1234_5678);
}

#[test]
fn installing_a_handler_sets_the_descriptor_flags() {
    let mut entry = IdtEntry::new();
    entry.set_func(0xCAFE_F00D);
    assert_eq!(entry.flags, 0x8E);
    assert_eq!(entry.selector, 0x08);
    assert_eq!(entry.offsetl, 0xF00D);
    assert_eq!(entry.offsetm, 0xCAFE);
    assert_eq!(entry.offseth, 0);
}

#[test]
fn descriptor_flags_can_be_set_on_their_own() {
    let mut entry = IdtEntry::new();
    entry.set_flags(IdtFlags { bits: 0x8F });
    assert_eq!(entry.flags, 0x8F);
}

#[test]
fn the_loader_entry_shape_matches() {
    let entry = kurumi::dtables::IdtEntry::new(0x1_0000_FFFF, 0x08);
    assert_eq!(entry.offsetl, 0xFFFF);
    assert_eq!(entry.offsetm, 0x0000);
    assert_eq!(entry.offseth, 0x1);
    assert_eq!(entry.flags, 0x8E);
    assert_eq!(entry.selector, 0x08);
}

#[test]
fn the_table_pointer_carries_the_byte_size() {
    let pointer = DescriptorTablePointer::new_idtp(0x1000, 256);
    assert_eq!(pointer.base, 0x1000);
    assert_eq!(pointer.limit, 256 * 16);
}

#[test]
fn frames_are_addressed_by_page() {
    let frame = Frame::containing_address(0x2345);
    assert_eq!(frame.number, 2);
    assert_eq!(frame.start_address(), 2 * PAGE_SIZE);
    assert_eq!(Frame::containing_address(0), Frame { number: 0 });
}

#[test]
fn a_page_entry_roundtrips_frame_and_flags() {
    let mut entry = Entry(0);
    assert!(entry.is_unused());
    assert_eq!(entry.pointed_frame(), None);

    let frame = Frame { number: 0x1234 };
    entry.set(frame, EntryFlags { bits: PAGE_PRESENT | PAGE_WRITABLE });
    assert!(!entry.is_unused());
    assert_eq!(entry.flags().bits, PAGE_PRESENT | PAGE_WRITABLE);
    assert!(entry.flags().contains(PAGE_PRESENT));
    assert_eq!(entry.pointed_frame(), Some(frame));

    entry.set_unused();
    assert!(entry.is_unused());
    assert_eq!(entry.pointed_frame(), None);
}
