//! File abstractions: the trait a filesystem's records implement, the
//! byte-offset cursor into one record, and the small-integer descriptor
//! that scopes one open session.

use vstd::prelude::*;

verus! {

/// What every file record can answer: its display name and its size.
pub trait File: Sized {
    /// The record's display name.
    spec fn spec_name(&self) -> Seq<char>;

    /// The record's size in bytes.
    spec fn spec_size(&self) -> int;

    /// The record's display name.
    fn get_name(&self) -> (r: String)
        ensures
            r@ == self.spec_name(),
    ;

    /// The record's size in bytes.
    fn get_size(&self) -> (r: usize)
        ensures
            r == self.spec_size(),
    ;
}

/// The access a descriptor was opened with.
#[derive(Debug, Clone, Copy, PartialEq, Eq, Structural)]
pub enum FileMode {
    /// Reading only.
    Read,
    /// Writing only.
    Write,
    /// Reading and writing.
    ReadWrite,
}

/// A byte-offset cursor into one file record. The position only moves
/// forward, by the bytes a successful read consumed.
pub struct FilePointer<T: File> {
    file: T,
    pos: usize,
}

impl<T: File> FilePointer<T> {
    /// The record the cursor points into.
    pub closed spec fn spec_file(&self) -> T {
        self.file
    }

    /// The cursor's byte offset.
    pub closed spec fn spec_pos(&self) -> usize {
        self.pos
    }

    /// A cursor at the given offset of the given record.
    pub fn new(file: T, pos: usize) -> (r: FilePointer<T>)
        ensures
            r.spec_file() == file,
            r.spec_pos() == pos,
    {
        FilePointer { file, pos }
    }

    /// The cursor's byte offset.
    pub fn get_pos(&self) -> (r: usize)
        ensures
            r == self.spec_pos(),
    {
        self.pos
    }

    /// Move the cursor forward by the bytes just consumed.
    pub fn advance_pointer(&mut self, amount: usize)
        requires
            old(self).spec_pos() + amount <= usize::MAX,
        ensures
            final(self).spec_pos() == old(self).spec_pos() + amount,
            final(self).spec_file() == old(self).spec_file(),
    {
        self.pos += amount
    }

    /// The record the cursor points into.
    pub fn get_file(&self) -> (r: &T)
        ensures
            *r == self.spec_file(),
    {
        &self.file
    }
}

/// A small-integer handle bound to one file cursor; created by open,
/// destroyed by close. Handle numbers are reused after close, so a
/// handle scopes exactly one open session.
pub struct FileDescriptor<T: File> {
    id: u16,
    mode: FileMode,
    pointer: FilePointer<T>,
}

impl<T: File> FileDescriptor<T> {
    /// The handle number.
    pub closed spec fn spec_id(&self) -> u16 {
        self.id
    }

    /// The access mode.
    pub closed spec fn spec_mode(&self) -> FileMode {
        self.mode
    }

    /// The cursor the handle is bound to.
    pub closed spec fn spec_pointer(&self) -> FilePointer<T> {
        self.pointer
    }

    /// Bind a handle number to a cursor.
    pub fn new(id: u16, mode: FileMode, pointer: FilePointer<T>) -> (r: FileDescriptor<T>)
        ensures
            r.spec_id() == id,
            r.spec_mode() == mode,
            r.spec_pointer() == pointer,
    {
        FileDescriptor { id, mode, pointer }
    }

    /// The handle number.
    pub fn get_id(&self) -> (r: u16)
        ensures
            r == self.spec_id(),
    {
        self.id
    }

    /// The cursor the handle is bound to.
    pub fn get_pointer(&self) -> (r: &FilePointer<T>)
        ensures
            *r == self.spec_pointer(),
    {
        &self.pointer
    }

    /// The cursor the handle is bound to, for advancing it.
    pub fn get_pointer_mut(&mut self) -> (r: &mut FilePointer<T>)
        ensures
            *r == old(self).spec_pointer(),
            final(self).spec_pointer() == *final(r),
            final(self).spec_id() == old(self).spec_id(),
            final(self).spec_mode() == old(self).spec_mode(),
            *final(r) == old(self).spec_pointer() ==> *final(self) == *old(self),
    {
        &mut self.pointer
    }
}

} // verus!
