//! The descriptor table: small integer handles bound to open file
//! cursors over one volume and one drive.
//!
//! Handles are the smallest non-negative integers not currently in
//! use, and are reused after close, so a handle scopes exactly one
//! open session. The table keeps its descriptors sorted by handle
//! number, which makes the smallest free number the first gap.

use vstd::prelude::*;

use crate::directory::Directory;
use crate::disk::Disk;
use vstd::arithmetic::mul::lemma_mul_inequality;

use crate::fat32::{
    file_read_ok, find_ok, lemma_read_parts_bounds, lemma_read_parts_upper,
    spec_bytes_in_cluster, spec_chain, spec_chain_fuel, spec_file_byte, spec_find,
    spec_read_parts, Fat32, FsError,
};
use crate::cluster::FatEntry;
use crate::file::{FileDescriptor, FileMode};

verus! {

/// The handle numbers of a descriptor sequence.
pub open spec fn has_id(s: Seq<FileDescriptor<Directory>>, id: u16) -> bool {
    exists|i: int| 0 <= i < s.len() && s[i].spec_id() == id
}

/// Descriptors sorted strictly by handle number (so numbers are unique).
pub open spec fn sorted_ids(s: Seq<FileDescriptor<Directory>>) -> bool {
    forall|i: int, j: int| 0 <= i < j < s.len() ==> s[i].spec_id() < s[j].spec_id()
}

/// In a sorted table the handle at position `i` is at least `i`.
proof fn lemma_sorted_lower(s: Seq<FileDescriptor<Directory>>, i: int)
    requires
        sorted_ids(s),
        0 <= i < s.len(),
    ensures
        s[i].spec_id() >= i,
    decreases i,
{
    if i > 0 {
        lemma_sorted_lower(s, i - 1);
    }
}

/// One volume, one drive, and the open descriptors over them.
pub struct FsManager<D: Disk> {
    /// The mounted volume.
    pub filesystem: Fat32,
    /// The drive the volume lives on.
    pub drive: D,
    /// The open descriptors, kept sorted by handle number.
    pub descriptors: Vec<FileDescriptor<Directory>>,
}

impl<D: Disk> FsManager<D> {
    /// The open descriptors, sorted by handle number.
    pub open spec fn descs(&self) -> Seq<FileDescriptor<Directory>> {
        self.descriptors@
    }

    /// Usable volume geometry and a sorted descriptor table.
    pub open spec fn wf(&self) -> bool {
        &&& self.filesystem.wf()
        &&& sorted_ids(self.descs())
    }

    /// A manager with no open descriptors.
    pub fn new(filesystem: Fat32, drive: D) -> (r: FsManager<D>)
        requires
            filesystem.wf(),
        ensures
            r.wf(),
            r.filesystem == filesystem,
            r.drive == drive,
            r.descs() == Seq::<FileDescriptor<Directory>>::empty(),
    {
        let r = FsManager { filesystem, drive, descriptors: Vec::new() };
        proof {
            assert(r.descs() =~= Seq::<FileDescriptor<Directory>>::empty());
        }
        r
    }

    /// Resolve a path and bind the smallest free handle number to a
    /// cursor at offset zero on the resolved record.
    pub fn open_file(&mut self, file_name: &str) -> (r: Result<u16, FsError>)
        requires
            old(self).wf(),
        ensures
            final(self).wf(),
            final(self).filesystem == old(self).filesystem,
            final(self).drive.contents() == old(self).drive.contents(),
            final(self).drive.reliable() == old(self).drive.reliable(),
            r is Err ==> final(self).descs() == old(self).descs(),
            r matches Ok(id) ==> {
                &&& !has_id(old(self).descs(), id)
                &&& forall|k: u16| k < id ==> has_id(old(self).descs(), k)
                &&& has_id(final(self).descs(), id)
                &&& final(self).descs().len() == old(self).descs().len() + 1
                &&& forall|k: u16| has_id(old(self).descs(), k) ==> has_id(final(self).descs(), k)
            },
            old(self).drive.reliable() && find_ok(
                old(self).drive.contents(),
                old(self).filesystem.ebpb,
                old(self).filesystem.ebpb.root_dir_cluster,
                crate::text::spec_split(file_name@),
                0,
            ) && old(self).descs().len() < 0x10000 ==> match spec_find(
                old(self).drive.contents(),
                old(self).filesystem.ebpb,
                old(self).filesystem.ebpb.root_dir_cluster,
                crate::text::spec_split(file_name@),
                0,
            ) {
                Ok(v) => r matches Ok(id) && exists|i: int|
                    {
                        &&& 0 <= i < final(self).descs().len()
                        &&& final(self).descs()[i].spec_id() == id
                        &&& final(self).descs()[i].spec_mode() == FileMode::ReadWrite
                        &&& final(self).descs()[i].spec_pointer().spec_file()@ == v
                        &&& final(self).descs()[i].spec_pointer().spec_pos() == 0
                    },
                Err(err) => r == Err::<u16, FsError>(err),
            },
    {
        let file_pointer = match self.filesystem.open_file(&mut self.drive, file_name) {
            Ok(fp) => fp,
            Err(e) => { return Err(e) },
        };
        let n = self.descriptors.len();
        let mut free: usize = 0;
        while free < n && self.descriptors[free].get_id() as usize == free
            invariant
                n == self.descriptors@.len(),
                sorted_ids(self.descriptors@),
                self.filesystem.wf(),
                self.filesystem == old(self).filesystem,
                self.drive.contents() == old(self).drive.contents(),
                self.drive.reliable() == old(self).drive.reliable(),
                free <= n,
                forall|k: int| 0 <= k < free ==> self.descriptors@[k].spec_id() == k,
            decreases n - free,
        {
            free += 1;
        }
        if free >= 0x10000 {
            return Err(FsError::TooManyOpen);
        }
        proof {
            if (free as int) < self.descriptors@.len() {
                lemma_sorted_lower(self.descriptors@, free as int);
            }
            assert forall|k: u16| k < free implies has_id(self.descriptors@, k) by {
                assert(self.descriptors@[k as int].spec_id() == k);
            }
            assert(!has_id(self.descriptors@, free as u16)) by {
                if has_id(self.descriptors@, free as u16) {
                    let i = choose|i: int|
                        0 <= i < self.descriptors@.len() && self.descriptors@[i].spec_id()
                            == free as u16;
                    if i < free as int {
                    } else {
                        lemma_sorted_lower(self.descriptors@, i);
                        if (free as int) < self.descriptors@.len() {
                            if i > free as int {
                                assert(self.descriptors@[free as int].spec_id()
                                    < self.descriptors@[i].spec_id());
                            }
                        }
                    }
                }
            }
        }
        let descriptor = FileDescriptor::new(free as u16, FileMode::ReadWrite, file_pointer);
        let ghost before = self.descriptors@;
        self.descriptors.insert(free, descriptor);
        proof {
            assert forall|i: int, j: int|
                0 <= i < j < self.descriptors@.len() implies self.descriptors@[i].spec_id()
                < self.descriptors@[j].spec_id() by {
                if j < free as int + 1 {
                } else if i > free as int {
                } else if i == free as int {
                    lemma_sorted_lower(before, j - 1);
                } else if j == free as int {
                } else {
                }
            }
            assert(has_id(self.descriptors@, free as u16)) by {
                assert(self.descriptors@[free as int].spec_id() == free as u16);
            }
            assert forall|k: u16| has_id(before, k) implies has_id(self.descriptors@, k) by {
                let i = choose|i: int| 0 <= i < before.len() && before[i].spec_id() == k;
                if i < free as int {
                    assert(self.descriptors@[i].spec_id() == k);
                } else {
                    assert(self.descriptors@[i + 1].spec_id() == k);
                }
            }
            assert forall|k: u16| k < free implies has_id(before, k) by {
                assert(before[k as int].spec_id() == k);
            }
            assert(self.descriptors@[free as int].spec_pointer() == file_pointer);
            if old(self).drive.reliable() && find_ok(
                old(self).drive.contents(),
                old(self).filesystem.ebpb,
                old(self).filesystem.ebpb.root_dir_cluster,
                crate::text::spec_split(file_name@),
                0,
            ) {
                match spec_find(
                    old(self).drive.contents(),
                    old(self).filesystem.ebpb,
                    old(self).filesystem.ebpb.root_dir_cluster,
                    crate::text::spec_split(file_name@),
                    0,
                ) {
                    Ok(v) => {
                        let i = free as int;
                        assert(self.descs()[i].spec_id() == free as u16);
                        assert(self.descs()[i].spec_mode() == FileMode::ReadWrite);
                        assert(self.descs()[i].spec_pointer().spec_file()@ == v);
                        assert(self.descs()[i].spec_pointer().spec_pos() == 0);
                    },
                    Err(_) => {},
                }
            }
        }
        Ok(free as u16)
    }

    /// Close the descriptor bearing the given handle number.
    pub fn close_descriptor(&mut self, descriptor: u16) -> (r: Result<(), FsError>)
        requires
            old(self).wf(),
        ensures
            final(self).wf(),
            final(self).filesystem == old(self).filesystem,
            final(self).drive == old(self).drive,
            !has_id(old(self).descs(), descriptor) ==> r == Err::<(), FsError>(
                FsError::BadDescriptor,
            ) && final(self).descs() == old(self).descs(),
            has_id(old(self).descs(), descriptor) ==> {
                &&& r is Ok
                &&& !has_id(final(self).descs(), descriptor)
                &&& final(self).descs().len() + 1 == old(self).descs().len()
                &&& forall|k: u16|
                    k != descriptor && has_id(old(self).descs(), k) ==> has_id(
                        final(self).descs(),
                        k,
                    )
                &&& exists|i: int|
                    {
                        &&& 0 <= i < old(self).descs().len()
                        &&& old(self).descs()[i].spec_id() == descriptor
                        &&& final(self).descs() == old(self).descs().remove(i)
                    }
            },
    {
        let n = self.descriptors.len();
        let mut index: usize = 0;
        while index < n
            invariant
                n == self.descriptors@.len(),
                index <= n,
                *self == *old(self),
                sorted_ids(self.descriptors@),
                self.filesystem.wf(),
                forall|k: int| 0 <= k < index ==> self.descriptors@[k].spec_id() != descriptor,
            decreases n - index,
        {
            if self.descriptors[index].get_id() == descriptor {
                let ghost before = self.descriptors@;
                self.descriptors.remove(index);
                proof {
                    assert forall|k: u16|
                        k != descriptor && has_id(before, k) implies has_id(
                        self.descriptors@,
                        k,
                    ) by {
                        let i = choose|i: int| 0 <= i < before.len() && before[i].spec_id() == k;
                        if i < index as int {
                            assert(self.descriptors@[i].spec_id() == k);
                        } else {
                            assert(self.descriptors@[i - 1].spec_id() == k);
                        }
                    }
                    assert(!has_id(self.descriptors@, descriptor)) by {
                        if has_id(self.descriptors@, descriptor) {
                            let i = choose|i: int|
                                0 <= i < self.descriptors@.len()
                                    && self.descriptors@[i].spec_id() == descriptor;
                            if i < index as int {
                            } else {
                                assert(before[i + 1].spec_id() == descriptor);
                            }
                        }
                    }
                    assert(before[index as int].spec_id() == descriptor);
                    assert(self.descriptors@ == before.remove(index as int));
                }
                return Ok(());
            }
            index += 1;
        }
        Err(FsError::BadDescriptor)
    }

    /// Read from the descriptor's cursor into the buffer (whole
    /// clusters, as the volume's read works) and advance the cursor by
    /// the bytes actually copied. On a reliable drive whose chain
    /// covers the read, the open descriptor owes the exact copied
    /// count and bytes, as the volume's own read does.
    pub fn read_file(&mut self, descriptor: u16, buffer: &mut Vec<u8>) -> (r: Result<
        usize,
        FsError,
    >)
        requires
            old(self).wf(),
        ensures
            final(self).wf(),
            final(self).filesystem == old(self).filesystem,
            final(self).drive.contents() == old(self).drive.contents(),
            final(self).drive.reliable() == old(self).drive.reliable(),
            final(buffer).len() == old(buffer).len(),
            final(self).descs().len() == old(self).descs().len(),
            !has_id(old(self).descs(), descriptor) ==> r == Err::<usize, FsError>(
                FsError::BadDescriptor,
            ) && final(self).descs() == old(self).descs() && final(buffer)@ == old(buffer)@,
            r is Err ==> final(self).descs() == old(self).descs(),
            r matches Ok(bytes_read) ==> exists|i: int|
                {
                    &&& 0 <= i < old(self).descs().len()
                    &&& old(self).descs()[i].spec_id() == descriptor
                    &&& final(self).descs()[i].spec_pointer().spec_pos() == old(
                        self,
                    ).descs()[i].spec_pointer().spec_pos() + bytes_read
                    &&& final(self).descs()[i].spec_pointer().spec_file() == old(
                        self,
                    ).descs()[i].spec_pointer().spec_file()
                    &&& final(self).descs()[i].spec_id() == descriptor
                    &&& forall|j: int|
                        0 <= j < old(self).descs().len() && j != i ==> final(self).descs()[j]
                            == old(self).descs()[j]
                },
            forall|i: int|
                (0 <= i < old(self).descs().len() && old(self).descs()[i].spec_id() == descriptor
                    && old(self).drive.reliable() && file_read_ok(
                    old(self).drive.contents(),
                    old(self).filesystem.ebpb,
                    old(self).descs()[i].spec_pointer().spec_file()@.cluster(),
                    old(self).descs()[i].spec_pointer().spec_pos() as int,
                    old(self).descs()[i].spec_pointer().spec_file()@.file_size as int,
                    old(buffer)@.len() as int,
                ) && old(self).descs()[i].spec_pointer().spec_pos() + old(buffer)@.len()
                    <= usize::MAX) ==> {
                    let cs = spec_bytes_in_cluster(old(self).filesystem.ebpb);
                    let parts = spec_read_parts(
                        old(self).descs()[i].spec_pointer().spec_pos() as int,
                        old(self).descs()[i].spec_pointer().spec_file()@.file_size as int,
                        old(buffer)@.len() as int,
                        cs,
                        0,
                    );
                    &&& r == Ok::<usize, FsError>((parts * cs) as usize)
                    &&& match spec_chain(
                        old(self).drive.contents(),
                        old(self).filesystem.ebpb,
                        FatEntry::Node(old(self).descs()[i].spec_pointer().spec_file()@.cluster()),
                        spec_chain_fuel(old(self).filesystem.ebpb),
                    ) {
                        Ok(cl) => forall|b: int|
                            0 <= b < parts * cs ==> final(buffer)@[b] == spec_file_byte(
                                old(self).drive.contents(),
                                old(self).filesystem.ebpb,
                                cl,
                                old(self).descs()[i].spec_pointer().spec_pos() as int / cs,
                                b,
                            ),
                        Err(_) => true,
                    }
                },
    {
        let n = self.descriptors.len();
        let mut index: usize = 0;
        while index < n
            invariant
                n == self.descriptors@.len(),
                index <= n,
                *self == *old(self),
                buffer@ == old(buffer)@,
                sorted_ids(self.descriptors@),
                self.filesystem.wf(),
                forall|k: int| 0 <= k < index ==> self.descriptors@[k].spec_id() != descriptor,
            decreases n - index,
        {
            if self.descriptors[index].get_id() == descriptor {
                proof {
                    // The handle is unique: sortedness rules out any
                    // other position bearing it.
                    assert forall|i: int|
                        0 <= i < old(self).descs().len() && old(self).descs()[i].spec_id()
                            == descriptor implies i == index as int by {
                        if i > index as int {
                            assert(old(self).descs()[index as int].spec_id() < old(
                                self,
                            ).descs()[i].spec_id());
                        }
                    }
                }
                let descriptor_entry = &mut self.descriptors[index];
                let pointer = descriptor_entry.get_pointer_mut();
                let size = match self.filesystem.read_file(&mut self.drive, pointer, buffer) {
                    Ok(size) => size,
                    Err(e) => {
                        proof {
                            assert(self.descriptors@ =~= old(self).descs());
                        }
                        return Err(e);
                    },
                };
                proof {
                    let i = index as int;
                    let e = old(self).filesystem.ebpb;
                    let cs = spec_bytes_in_cluster(e);
                    if old(self).drive.reliable() && file_read_ok(
                        old(self).drive.contents(),
                        e,
                        old(self).descs()[i].spec_pointer().spec_file()@.cluster(),
                        old(self).descs()[i].spec_pointer().spec_pos() as int,
                        old(self).descs()[i].spec_pointer().spec_file()@.file_size as int,
                        old(buffer)@.len() as int,
                    ) {
                        lemma_mul_inequality(
                            1,
                            e.bpb.sectors_per_cluster as int,
                            e.bpb.bytes_per_sector as int,
                        );
                        lemma_read_parts_upper(
                            old(self).descs()[i].spec_pointer().spec_pos() as int,
                            old(self).descs()[i].spec_pointer().spec_file()@.file_size as int,
                            old(buffer)@.len() as int,
                            cs,
                            0,
                        );
                        lemma_read_parts_bounds(
                            old(self).descs()[i].spec_pointer().spec_pos() as int,
                            old(self).descs()[i].spec_pointer().spec_file()@.file_size as int,
                            old(buffer)@.len() as int,
                            cs,
                            0,
                        );
                        assert(cs >= 1);
                        assert(*pointer == old(self).descs()[i].spec_pointer());
                        assert(size as int == spec_read_parts(
                            old(self).descs()[i].spec_pointer().spec_pos() as int,
                            old(self).descs()[i].spec_pointer().spec_file()@.file_size as int,
                            old(buffer)@.len() as int,
                            cs,
                            0,
                        ) * cs);
                        assert(size <= old(buffer)@.len());
                    }
                }
                let pos = pointer.get_pos();
                if size > usize::MAX - pos {
                    proof {
                        assert(self.descriptors@ =~= old(self).descs());
                    }
                    return Err(FsError::CursorOverflow);
                }
                pointer.advance_pointer(size);
                proof {
                    let i = index as int;
                    assert(old(self).descs()[i].spec_id() == descriptor);
                    assert(self.descs()[i].spec_pointer().spec_pos() == old(
                        self,
                    ).descs()[i].spec_pointer().spec_pos() + size);
                    assert(self.descs()[i].spec_pointer().spec_file() == old(
                        self,
                    ).descs()[i].spec_pointer().spec_file());
                    assert(self.descs()[i].spec_id() == descriptor);
                    assert(forall|j: int|
                        0 <= j < old(self).descs().len() && j != i ==> self.descs()[j] == old(
                            self,
                        ).descs()[j]);
                    assert forall|a: int, b: int|
                        0 <= a < b < self.descriptors@.len() implies self.descriptors@[a].spec_id()
                        < self.descriptors@[b].spec_id() by {
                        assert(self.descriptors@[a].spec_id() == old(
                            self,
                        ).descs()[a].spec_id());
                        assert(self.descriptors@[b].spec_id() == old(
                            self,
                        ).descs()[b].spec_id());
                    }
                }
                return Ok(size);
            }
            index += 1;
        }
        Err(FsError::BadDescriptor)
    }
}

} // verus!
