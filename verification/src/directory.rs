//! Directory-entry decoding: 32-byte slots in two on-disk shapes.
//!
//! A short entry carries the 8.3 name, the attribute byte, timestamps,
//! the split first-cluster number and the file size. A long-name entry
//! (attribute byte exactly 0x0F) carries 13 UTF-16 code units of a long
//! name. Long-name entries precede their short entry in on-disk order
//! but in reverse logical order, so the decoder prepends each fragment
//! to the accumulated name and attaches the result to the next short
//! entry. A slot starting with 0x00 ends the directory; one starting
//! with 0xE5 is unused and skipped; an accumulated name with no short
//! entry to decorate (a corrupt directory) is discarded.

use vstd::prelude::*;

use crate::bpb::{read_le16, read_le32, spec_le16, spec_le32};
use crate::text::{
    chars_to_string, short_name_chars, spec_short_name, spec_utf16_chars, utf16_chars,
};

verus! {

/// Slot size of one directory entry in bytes.
pub const DIR_ENTRY_SIZE: usize = 32;

/// Attribute byte of a long-name entry.
pub const ATTR_LONG_FILE_NAME: u8 = 0x0F;

/// Attribute bit marking a directory.
pub const ATTR_DIRECTORY: u8 = 0x10;

/// First byte of a slot that ends the directory.
pub const ENTRY_END: u8 = 0x00;

/// First byte of a deleted, skippable slot.
pub const ENTRY_DELETED: u8 = 0xE5;

/// The mathematical content of one resolved directory entry: the
/// display name and every stored field of the short entry it came from.
pub struct DirView {
    /// The resolved display name.
    pub name: Seq<char>,
    /// The raw 11 bytes of the 8.3 name field.
    pub short_name: Seq<u8>,
    /// Attribute byte.
    pub attributes: u8,
    /// Reserved byte.
    pub reserved_nt: u8,
    /// Creation time, tenths of a second.
    pub creation_time_precise: u8,
    /// Creation time.
    pub creation_time: u16,
    /// Creation date.
    pub creation_date: u16,
    /// Last access date.
    pub last_accessed: u16,
    /// High half of the first cluster number.
    pub first_cluster_high: u16,
    /// Last modification time.
    pub last_modified_time: u16,
    /// Last modification date.
    pub last_modified_date: u16,
    /// Low half of the first cluster number.
    pub first_cluster_low: u16,
    /// File size in bytes.
    pub file_size: u32,
}

impl DirView {
    /// The first cluster number, halves joined.
    pub open spec fn cluster(self) -> u32 {
        (self.first_cluster_high as u32) << 16 | self.first_cluster_low as u32
    }

    /// Whether the entry names a directory.
    pub open spec fn is_folder(self) -> bool {
        self.attributes & ATTR_DIRECTORY != 0
    }
}

/// The short-entry fields stored in the 32-byte slot at `off`, paired
/// with the resolved display name `name`.
pub open spec fn spec_slot_view(bytes: Seq<u8>, off: int, name: Seq<char>) -> DirView {
    DirView {
        name,
        short_name: bytes.subrange(off, off + 11),
        attributes: bytes[off + 11],
        reserved_nt: bytes[off + 12],
        creation_time_precise: bytes[off + 13],
        creation_time: spec_le16(bytes, off + 14),
        creation_date: spec_le16(bytes, off + 16),
        last_accessed: spec_le16(bytes, off + 18),
        first_cluster_high: spec_le16(bytes, off + 20),
        last_modified_time: spec_le16(bytes, off + 22),
        last_modified_date: spec_le16(bytes, off + 24),
        first_cluster_low: spec_le16(bytes, off + 26),
        file_size: spec_le32(bytes, off + 28),
    }
}

/// The 13 UTF-16 code units stored in a long-name slot, in logical
/// order: five, then six, then two, at their fixed offsets.
pub open spec fn spec_lfn_all_units(bytes: Seq<u8>, off: int) -> Seq<u16> {
    seq![
        spec_le16(bytes, off + 1),
        spec_le16(bytes, off + 3),
        spec_le16(bytes, off + 5),
        spec_le16(bytes, off + 7),
        spec_le16(bytes, off + 9),
        spec_le16(bytes, off + 14),
        spec_le16(bytes, off + 16),
        spec_le16(bytes, off + 18),
        spec_le16(bytes, off + 20),
        spec_le16(bytes, off + 22),
        spec_le16(bytes, off + 24),
        spec_le16(bytes, off + 28),
        spec_le16(bytes, off + 30),
    ]
}

/// A name fragment ends at the first 0x0000 terminator; what follows it
/// is padding.
pub open spec fn take_until_zero(s: Seq<u16>) -> Seq<u16>
    decreases s.len(),
{
    if s.len() == 0 {
        s
    } else if s[0] == 0 {
        Seq::empty()
    } else {
        seq![s[0]] + take_until_zero(s.skip(1))
    }
}

/// The name fragment of the long-name slot at `off`.
pub open spec fn spec_lfn_units(bytes: Seq<u8>, off: int) -> Seq<u16> {
    take_until_zero(spec_lfn_all_units(bytes, off))
}

/// The entries decoded from the slot region of `bytes`, starting at
/// slot `i` with the name fragments `pending` already accumulated.
pub open spec fn spec_decode_from(bytes: Seq<u8>, i: int, pending: Seq<u16>) -> Seq<DirView>
    decreases bytes.len() - i * 32,
{
    if i < 0 || i * 32 + 32 > bytes.len() {
        Seq::empty()
    } else {
        let off = i * 32;
        if bytes[off] == ENTRY_END {
            Seq::empty()
        } else if bytes[off] == ENTRY_DELETED {
            spec_decode_from(bytes, i + 1, pending)
        } else if bytes[off + 11] == ATTR_LONG_FILE_NAME {
            spec_decode_from(bytes, i + 1, spec_lfn_units(bytes, off) + pending)
        } else {
            let name = if pending.len() > 0 {
                spec_utf16_chars(pending)
            } else {
                spec_short_name(bytes.subrange(off, off + 11))
            };
            seq![spec_slot_view(bytes, off, name)] + spec_decode_from(bytes, i + 1, Seq::empty())
        }
    }
}

/// The entries decoded from the whole slot region of `bytes`.
pub open spec fn spec_decode(bytes: Seq<u8>) -> Seq<DirView> {
    spec_decode_from(bytes, 0, Seq::empty())
}

/// The views of a sequence of decoded entries.
pub open spec fn dir_views(s: Seq<Directory>) -> Seq<DirView> {
    s.map_values(|d: Directory| d@)
}

/// A long-name slot: an ordering byte, three groups of UTF-16 code
/// units, and the reserved attribute value that marks the shape.
#[derive(Debug, Clone, Copy)]
pub struct LongFileName {
    order: u8,
    name_first: [u16; 5],
    attributes: u8,
    long_entry_type: u8,
    checksum: u8,
    name_middle: [u16; 6],
    reserved: u16,
    name_final: [u16; 2],
}

impl LongFileName {
    /// All 13 stored code units, groups joined in logical order.
    pub closed spec fn all_units(self) -> Seq<u16> {
        self.name_first@ + self.name_middle@ + self.name_final@
    }

    /// Decode the long-name slot at `off`.
    pub fn parse(bytes: &Vec<u8>, off: usize) -> (r: LongFileName)
        requires
            off + DIR_ENTRY_SIZE <= bytes.len(),
        ensures
            r.all_units() == spec_lfn_all_units(bytes@, off as int),
    {
        let r = LongFileName {
            order: bytes[off],
            name_first: [
                read_le16(bytes, off + 1),
                read_le16(bytes, off + 3),
                read_le16(bytes, off + 5),
                read_le16(bytes, off + 7),
                read_le16(bytes, off + 9),
            ],
            attributes: bytes[off + 11],
            long_entry_type: bytes[off + 12],
            checksum: bytes[off + 13],
            name_middle: [
                read_le16(bytes, off + 14),
                read_le16(bytes, off + 16),
                read_le16(bytes, off + 18),
                read_le16(bytes, off + 20),
                read_le16(bytes, off + 22),
                read_le16(bytes, off + 24),
            ],
            reserved: read_le16(bytes, off + 26),
            name_final: [read_le16(bytes, off + 28), read_le16(bytes, off + 30)],
        };
        proof {
            assert(r.all_units() =~= spec_lfn_all_units(bytes@, off as int));
        }
        r
    }

    /// The stored code units up to the 0x0000 terminator.
    pub fn units(&self) -> (r: Vec<u16>)
        ensures
            r@ == take_until_zero(self.all_units()),
    {
        let mut all: Vec<u16> = Vec::new();
        let mut i: usize = 0;
        while i < 5
            invariant
                i <= 5,
                all@ == self.name_first@.take(i as int),
            decreases 5 - i,
        {
            all.push(self.name_first[i]);
            proof {
                assert(self.name_first@.take(i + 1) =~= self.name_first@.take(i as int).push(
                    self.name_first@[i as int],
                ));
            }
            i += 1;
        }
        let mut i: usize = 0;
        while i < 6
            invariant
                i <= 6,
                all@ == self.name_first@ + self.name_middle@.take(i as int),
            decreases 6 - i,
        {
            all.push(self.name_middle[i]);
            proof {
                assert(self.name_middle@.take(i + 1) =~= self.name_middle@.take(i as int).push(
                    self.name_middle@[i as int],
                ));
                assert(self.name_first@ + self.name_middle@.take(i + 1) =~= (self.name_first@
                    + self.name_middle@.take(i as int)).push(self.name_middle@[i as int]));
            }
            i += 1;
        }
        let mut i: usize = 0;
        while i < 2
            invariant
                i <= 2,
                all@ == self.name_first@ + self.name_middle@ + self.name_final@.take(i as int),
            decreases 2 - i,
        {
            all.push(self.name_final[i]);
            proof {
                assert(self.name_final@.take(i + 1) =~= self.name_final@.take(i as int).push(
                    self.name_final@[i as int],
                ));
                assert(self.name_first@ + self.name_middle@ + self.name_final@.take(i + 1) =~= (
                self.name_first@ + self.name_middle@ + self.name_final@.take(i as int)).push(
                    self.name_final@[i as int],
                ));
            }
            i += 1;
        }
        proof {
            assert(self.name_first@.take(5) =~= self.name_first@);
            assert(self.name_middle@.take(6) =~= self.name_middle@);
            assert(self.name_final@.take(2) =~= self.name_final@);
            assert(all@ =~= self.all_units());
        }
        take_units_until_zero(&all)
    }

    /// The fragment this slot contributes, as text.
    pub fn get_name(&self) -> (r: String)
        ensures
            r@ == spec_utf16_chars(take_until_zero(self.all_units())),
    {
        let units = self.units();
        let chars = utf16_chars(&units);
        chars_to_string(&chars)
    }
}

proof fn lemma_take_until_zero(s: Seq<u16>, k: int)
    requires
        0 <= k <= s.len(),
        forall|j: int| 0 <= j < k ==> s[j] != 0,
        k < s.len() ==> s[k] == 0,
    ensures
        take_until_zero(s) == s.take(k),
    decreases k,
{
    if k == 0 {
        assert(s.take(0) =~= Seq::<u16>::empty());
        if s.len() == 0 {
            assert(s.take(0) =~= s);
        }
    } else {
        lemma_take_until_zero(s.skip(1), k - 1);
        assert(s.skip(1).take(k - 1) =~= s.take(k).skip(1));
        assert(seq![s[0]] + s.take(k).skip(1) =~= s.take(k));
    }
}

/// Keep the code units before the first 0x0000 terminator.
fn take_units_until_zero(all: &Vec<u16>) -> (r: Vec<u16>)
    ensures
        r@ == take_until_zero(all@),
{
    let mut r: Vec<u16> = Vec::new();
    let mut i: usize = 0;
    while i < all.len() && all[i] != 0
        invariant
            i <= all@.len(),
            forall|j: int| 0 <= j < i ==> all@[j] != 0,
            r@ == all@.take(i as int),
        decreases all@.len() - i,
    {
        r.push(all[i]);
        proof {
            assert(all@.take(i + 1) =~= all@.take(i as int).push(all@[i as int]));
        }
        i += 1;
    }
    proof {
        lemma_take_until_zero(all@, i as int);
    }
    r
}

/// A short entry in standard 8.3 shape.
#[derive(Debug, Clone, Copy)]
pub struct FatDirectory {
    /// The fixed 11-byte name-plus-extension field.
    pub name: [u8; 11],
    /// Attribute byte.
    pub attributes: u8,
    /// Reserved byte.
    pub reserved_nt: u8,
    /// Creation time, tenths of a second.
    pub creation_time_precise: u8,
    /// Creation time.
    pub creation_time: u16,
    /// Creation date.
    pub creation_date: u16,
    /// Last access date.
    pub last_accessed: u16,
    /// High half of the first cluster number.
    pub first_cluster_high: u16,
    /// Last modification time.
    pub last_modified_time: u16,
    /// Last modification date.
    pub last_modified_date: u16,
    /// Low half of the first cluster number.
    pub first_cluster_low: u16,
    /// File size in bytes.
    pub file_size: u32,
}

impl FatDirectory {
    /// The short-entry fields paired with the resolved name `name`.
    pub open spec fn with_name(self, name: Seq<char>) -> DirView {
        DirView {
            name,
            short_name: self.name@,
            attributes: self.attributes,
            reserved_nt: self.reserved_nt,
            creation_time_precise: self.creation_time_precise,
            creation_time: self.creation_time,
            creation_date: self.creation_date,
            last_accessed: self.last_accessed,
            first_cluster_high: self.first_cluster_high,
            last_modified_time: self.last_modified_time,
            last_modified_date: self.last_modified_date,
            first_cluster_low: self.first_cluster_low,
            file_size: self.file_size,
        }
    }

    /// Decode the short entry in the 32-byte slot at `off`.
    pub fn parse(bytes: &Vec<u8>, off: usize) -> (r: FatDirectory)
        requires
            off + DIR_ENTRY_SIZE <= bytes.len(),
        ensures
            forall|name: Seq<char>| r.with_name(name) == spec_slot_view(bytes@, off as int, name),
    {
        let r = FatDirectory {
            name: crate::bpb::copy_bytes::<11>(bytes, off),
            attributes: bytes[off + 11],
            reserved_nt: bytes[off + 12],
            creation_time_precise: bytes[off + 13],
            creation_time: read_le16(bytes, off + 14),
            creation_date: read_le16(bytes, off + 16),
            last_accessed: read_le16(bytes, off + 18),
            first_cluster_high: read_le16(bytes, off + 20),
            last_modified_time: read_le16(bytes, off + 22),
            last_modified_date: read_le16(bytes, off + 24),
            first_cluster_low: read_le16(bytes, off + 26),
            file_size: read_le32(bytes, off + 28),
        };
        r
    }

    /// The display name derived from the 11-byte field, padding trimmed.
    pub fn get_short_name(&self) -> (r: String)
        ensures
            r@ == spec_short_name(self.name@),
    {
        let name_vec = vstd::slice::slice_to_vec(self.name.as_slice());
        let chars = short_name_chars(&name_vec);
        chars_to_string(&chars)
    }

    /// The first cluster number, halves joined.
    pub fn get_cluster(&self) -> (r: u32)
        ensures
            r == self.with_name(Seq::empty()).cluster(),
    {
        (self.first_cluster_high as u32) << 16 | self.first_cluster_low as u32
    }

    /// Whether this slot is a long-name entry.
    pub fn is_lfn(&self) -> (r: bool)
        ensures
            r == (self.attributes == ATTR_LONG_FILE_NAME),
    {
        self.attributes == ATTR_LONG_FILE_NAME
    }

    /// Whether this entry names a directory.
    pub fn is_folder(&self) -> (r: bool)
        ensures
            r == self.with_name(Seq::empty()).is_folder(),
    {
        self.attributes & ATTR_DIRECTORY != 0
    }
}

/// A resolved directory entry: the display name (possibly rebuilt from
/// long-name fragments) and the short entry it decorates.
#[derive(Debug)]
pub struct Directory {
    name: Vec<char>,
    fat_directory: FatDirectory,
}

impl Clone for Directory {
    /// A copy with the same name and the same short entry.
    fn clone(&self) -> (r: Self)
        ensures
            r@ == self@,
    {
        Directory { name: self.name.clone(), fat_directory: self.fat_directory }
    }
}

impl crate::file::File for Directory {
    open spec fn spec_name(&self) -> Seq<char> {
        self@.name
    }

    open spec fn spec_size(&self) -> int {
        self@.file_size as int
    }

    fn get_name(&self) -> (r: String) {
        chars_to_string(&self.name)
    }

    fn get_size(&self) -> (r: usize) {
        self.fat_directory.file_size as usize
    }
}

impl View for Directory {
    type V = DirView;

    closed spec fn view(&self) -> DirView {
        self.fat_directory.with_name(self.name@)
    }
}

impl Directory {
    /// Pair a resolved name with its short entry.
    pub fn new(name: String, directory: FatDirectory) -> (r: Directory)
        ensures
            r@ == directory.with_name(name@),
    {
        Directory { name: crate::text::str_chars(name.as_str()), fat_directory: directory }
    }

    /// The short entry this record decorates.
    pub fn get_fat_dir(&self) -> (r: &FatDirectory)
        ensures
            r.with_name(self@.name) == self@,
    {
        &self.fat_directory
    }

    /// Whether the decorated entry is a long-name slot (never true for
    /// decoded records).
    pub fn is_lfn(&self) -> (r: bool)
        ensures
            r == (self@.attributes == ATTR_LONG_FILE_NAME),
    {
        self.fat_directory.is_lfn()
    }

    /// The resolved display name.
    pub fn get_name(&self) -> (r: String)
        ensures
            r@ == self@.name,
    {
        chars_to_string(&self.name)
    }

    /// The resolved display name, as characters.
    pub fn name_chars(&self) -> (r: &Vec<char>)
        ensures
            r@ == self@.name,
    {
        &self.name
    }

    /// The first cluster of the entry's data.
    pub fn get_cluster(&self) -> (r: u32)
        ensures
            r == self@.cluster(),
    {
        self.fat_directory.get_cluster()
    }
}

/// Decode every entry of one cluster's slot region, appending the
/// resolved records to `directories`.
pub fn decode_directories(bytes: &Vec<u8>, directories: &mut Vec<Directory>)
    ensures
        dir_views(final(directories)@) == dir_views(old(directories)@) + spec_decode(bytes@),
{
    let n = bytes.len();
    let slots = n / DIR_ENTRY_SIZE;
    let mut i: usize = 0;
    let mut pending: Vec<u16> = Vec::new();
    proof {
        assert(dir_views(directories@) + spec_decode(bytes@) =~= dir_views(old(directories)@)
            + spec_decode(bytes@));
        vstd::arithmetic::div_mod::lemma_fundamental_div_mod(n as int, DIR_ENTRY_SIZE as int);
    }
    while i < slots
        invariant
            n == bytes.len(),
            slots * DIR_ENTRY_SIZE <= n < slots * DIR_ENTRY_SIZE + DIR_ENTRY_SIZE,
            dir_views(old(directories)@) + spec_decode(bytes@) == dir_views(directories@)
                + spec_decode_from(bytes@, i as int, pending@),
        decreases slots - i,
    {
        proof {
            vstd::arithmetic::mul::lemma_mul_inequality(
                i as int + 1,
                slots as int,
                DIR_ENTRY_SIZE as int,
            );
        }
        let off = i * DIR_ENTRY_SIZE;
        let first = bytes[off];
        if first == ENTRY_END {
            return ;
        }
        if first == ENTRY_DELETED {
            i += 1;
            continue ;
        }
        let attributes = bytes[off + 11];
        if attributes == ATTR_LONG_FILE_NAME {
            let lfn = LongFileName::parse(bytes, off);
            let mut fragment = lfn.units();
            proof {
                assert(fragment@ == spec_lfn_units(bytes@, off as int));
            }
            fragment.append(&mut pending);
            pending = fragment;
        } else {
            let fat = FatDirectory::parse(bytes, off);
            let name_chars: Vec<char> = if pending.len() > 0 {
                utf16_chars(&pending)
            } else {
                let name_vec = vstd::slice::slice_to_vec(fat.name.as_slice());
                short_name_chars(&name_vec)
            };
            directories.push(Directory { name: name_chars, fat_directory: fat });
            pending = Vec::new();
            proof {
                assert(dir_views(directories@) =~= dir_views(directories@.drop_last()).push(
                    directories@.last()@,
                ));
            }
        }
        i += 1;
    }
}

} // verus!
