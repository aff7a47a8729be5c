//! Cluster-chain traversal through the File Allocation Table.
//!
//! A cluster's 4-byte FAT entry is found by byte offset `cluster * 4`
//! into the FAT region; the sector holding it is read, the top four
//! reserved bits are masked off, and the value is classified: at least
//! 0x0FFFFFF8 ends the chain, exactly 0x0FFFFFF7 marks a bad block (a
//! condition of its own, never folded into the end of the chain), and
//! anything else is the next cluster. A cluster number at or past the
//! volume's cluster count is an implicit end. Each step costs exactly
//! one sector-buffer read; nothing is cached across steps.

use vstd::arithmetic::div_mod::{lemma_fundamental_div_mod, lemma_mod_mod};
use vstd::prelude::*;

use crate::bpb::{read_le32, spec_le32, Ebpb};
use crate::disk::{Disk, SECTOR_SIZE};
use crate::fat32::{spec_total_clusters, spec_wf, Fat32, FsError};

verus! {

/// Smallest masked value that ends a chain.
pub const FAT_ENTRY_END_MIN: u32 = 0x0FFFFFF8;

/// Masked value that marks a bad block.
pub const FAT_ENTRY_BAD: u32 = 0x0FFFFFF7;

/// The 28 significant bits of a FAT entry; the top four are reserved.
pub const FAT_ENTRY_MASK: u32 = 0x0FFFFFFF;

/// One FAT entry, classified.
#[derive(Debug, PartialEq, Eq, Structural, Clone, Copy)]
pub enum FatEntry {
    /// The chain continues at this cluster.
    Node(u32),
    /// No more clusters in the chain.
    End,
    /// The cluster is marked bad; distinct from the end of the chain.
    BadBlock,
}

/// Classification of a masked FAT value.
pub open spec fn spec_classify(raw: u32) -> FatEntry {
    if raw >= FAT_ENTRY_END_MIN {
        FatEntry::End
    } else if raw == FAT_ENTRY_BAD {
        FatEntry::BadBlock
    } else {
        FatEntry::Node(raw)
    }
}

/// The sector (in device blocks) holding the FAT entry of `c`.
pub open spec fn spec_fat_sector(e: Ebpb, c: int) -> int {
    e.bpb.reserved_sectors_count + (4 * c) / (e.bpb.bytes_per_sector as int)
}

/// The byte offset of the FAT entry of `c` inside that sector buffer.
pub open spec fn spec_fat_entry_offset(e: Ebpb, c: int) -> int {
    (4 * c) % (e.bpb.bytes_per_sector as int)
}

/// The byte position of the FAT entry of `c` on the device.
pub open spec fn spec_fat_entry_pos(e: Ebpb, c: int) -> int {
    spec_fat_sector(e, c) * SECTOR_SIZE + spec_fat_entry_offset(e, c)
}

/// The masked FAT value of cluster `c` as stored on the device.
pub open spec fn spec_fat_raw(contents: Seq<u8>, e: Ebpb, c: int) -> u32 {
    spec_le32(contents, spec_fat_entry_pos(e, c)) & FAT_ENTRY_MASK
}

/// The FAT entry of cluster `c`: an implicit end past the cluster
/// count, otherwise the stored value classified.
pub open spec fn spec_fat_entry(contents: Seq<u8>, e: Ebpb, c: int) -> FatEntry {
    if c >= spec_total_clusters(e) {
        FatEntry::End
    } else {
        spec_classify(spec_fat_raw(contents, e, c))
    }
}

/// The entry bytes of `c` lie on the device, so a successful read pins
/// them (trivially true past the cluster count, where nothing is read).
pub open spec fn fat_entry_in_range(contents: Seq<u8>, e: Ebpb, c: int) -> bool {
    c >= spec_total_clusters(e) || spec_fat_entry_pos(e, c) + 4 <= contents.len()
}

/// A reliable device owes this step: the geometry is usable, the
/// sector size is whole device blocks, and the sector buffer holding
/// the entry of `c` lies within the device contents.
pub open spec fn fat_read_ok(contents: Seq<u8>, e: Ebpb, c: int) -> bool {
    c >= spec_total_clusters(e) || {
        &&& spec_wf(e)
        &&& e.bpb.bytes_per_sector as int % (SECTOR_SIZE as int) == 0
        &&& spec_fat_sector(e, c) * SECTOR_SIZE + e.bpb.bytes_per_sector <= contents.len()
    }
}

/// A FAT entry never straddles the sector buffer that holds it: entry
/// offsets are 4-aligned and the buffer size is a multiple of 4.
proof fn lemma_entry_fits(c: int, m: int)
    requires
        m > 0,
        m % 4 == 0,
        c >= 0,
    ensures
        spec_entry_offset_in(c, m) + 4 <= m,
{
    let r = (4 * c) % m;
    lemma_mod_mod(4 * c, 4, m / 4);
    lemma_fundamental_div_mod(m, 4);
    assert((4 * c) % 4 == 0) by (nonlinear_arith);
    assert(r % 4 == 0);
    assert(0 <= r < m) by (nonlinear_arith)
        requires
            m > 0,
            r == (4 * c) % m,
    ;
    assert(r + 4 <= m) by (nonlinear_arith)
        requires
            r % 4 == 0,
            m % 4 == 0,
            0 <= r < m,
    ;
}

/// The offset of the entry of `c` in a buffer of `m` bytes.
pub open spec fn spec_entry_offset_in(c: int, m: int) -> int {
    (4 * c) % m
}

/// A step a reliable device owes can also be checked against the
/// device contents: the entry bytes lie within them.
pub proof fn lemma_fat_read_ok_in_range(contents: Seq<u8>, e: Ebpb, c: int)
    requires
        c >= 0,
        fat_read_ok(contents, e, c),
    ensures
        fat_entry_in_range(contents, e, c),
{
    if c < spec_total_clusters(e) {
        let bps = e.bpb.bytes_per_sector as int;
        lemma_mod_mod(bps, 4, SECTOR_SIZE as int / 4);
        lemma_entry_fits(c, bps);
    }
}

/// A lazy, forward-only cursor over one cluster chain. It holds only
/// the entry it stands on; each step reads one FAT sector to find the
/// entry after it. It is not restartable: a new traversal starts from
/// the chain's first cluster again.
pub struct ClusterChain {
    current_entry: FatEntry,
}

impl ClusterChain {
    /// The entry the cursor stands on.
    pub closed spec fn entry(&self) -> FatEntry {
        self.current_entry
    }

    /// A cursor standing on the given cluster.
    pub fn new(cluster: u32) -> (r: ClusterChain)
        ensures
            r.entry() == FatEntry::Node(cluster),
    {
        ClusterChain { current_entry: FatEntry::Node(cluster) }
    }

    /// Whether the cluster number is at or past the volume's cluster
    /// count, which ends a chain implicitly.
    pub fn check_end(&self, fat: &Fat32, cluster: u32) -> (r: bool)
        requires
            fat.wf(),
        ensures
            r == (cluster as int >= spec_total_clusters(fat.ebpb)),
    {
        if cluster >= fat.get_total_clusters() {
            return true;
        }
        false
    }

    /// Read and classify the FAT entry of `current`, at the cost of
    /// one sector-buffer read (none past the cluster count).
    pub fn read_entry<D: Disk>(&self, fat: &Fat32, disk: &mut D, current: u32) -> (r: Result<
        FatEntry,
        FsError,
    >)
        requires
            fat.wf(),
        ensures
            final(disk).contents() == old(disk).contents(),
            final(disk).reliable() == old(disk).reliable(),
            current as int >= spec_total_clusters(fat.ebpb) ==> r == Ok::<FatEntry, FsError>(
                FatEntry::End,
            ) && *final(disk) == *old(disk),
            r matches Ok(entry) ==> (fat_entry_in_range(
                old(disk).contents(),
                fat.ebpb,
                current as int,
            ) ==> entry == spec_fat_entry(old(disk).contents(), fat.ebpb, current as int)),
            old(disk).reliable() && fat_read_ok(old(disk).contents(), fat.ebpb, current as int)
                ==> r == Ok::<FatEntry, FsError>(
                spec_fat_entry(old(disk).contents(), fat.ebpb, current as int),
            ),
    {
        if self.check_end(fat, current) {
            return Ok(FatEntry::End);
        }
        let bps: usize = fat.ebpb.bpb.bytes_per_sector as usize;
        let mut fat_table: Vec<u8> = vec![0u8; bps];
        let fat_offset: u64 = current as u64 * 4;
        let first_fat_sector: u64 = fat.ebpb.bpb.reserved_sectors_count as u64;
        let fat_sector: u64 = first_fat_sector + fat_offset / bps as u64;
        let ent_offset: usize = (fat_offset % bps as u64) as usize;
        proof {
            if fat.ebpb.bpb.bytes_per_sector as int % (SECTOR_SIZE as int) == 0 {
                lemma_entry_fits(current as int, bps as int);
                lemma_mod_mod(bps as int, 4, SECTOR_SIZE as int / 4);
            }
        }
        let k = match disk.read(fat_sector, &mut fat_table) {
            Ok(k) => k,
            Err(e) => { return Err(FsError::Io(e)) },
        };
        if (k as usize) * SECTOR_SIZE < ent_offset + 4 {
            return Err(FsError::ShortRead);
        }
        proof {
            vstd::arithmetic::div_mod::lemma_fundamental_div_mod(bps as int, SECTOR_SIZE as int);
            let contents = old(disk).contents();
            let pos = spec_fat_entry_pos(fat.ebpb, current as int);
            if pos + 4 <= contents.len() {
                assert(fat_table@.subrange(ent_offset as int, ent_offset + 4) =~= contents.subrange(
                    pos,
                    pos + 4,
                ));
            }
        }
        let table_value: u32 = read_le32(&fat_table, ent_offset) & FAT_ENTRY_MASK;
        if table_value >= FAT_ENTRY_END_MIN {
            return Ok(FatEntry::End);
        } else if table_value == FAT_ENTRY_BAD {
            return Ok(FatEntry::BadBlock);
        }
        Ok(FatEntry::Node(table_value))
    }

    /// Step the cursor: yield the cluster it stands on and move to the
    /// entry after it, report the end of the chain, or surface a bad
    /// block as its own condition.
    pub fn next<D: Disk>(&mut self, fat: &Fat32, disk: &mut D) -> (r: Result<Option<u32>, FsError>)
        requires
            fat.wf(),
        ensures
            final(disk).contents() == old(disk).contents(),
            final(disk).reliable() == old(disk).reliable(),
            old(self).entry() is End ==> r == Ok::<Option<u32>, FsError>(None) && *final(self)
                == *old(self),
            old(self).entry() is BadBlock ==> r == Err::<Option<u32>, FsError>(FsError::BadBlock)
                && *final(self) == *old(self),
            old(self).entry() matches FatEntry::Node(c) ==> match r {
                Ok(stepped) => stepped == Some(c) && (fat_entry_in_range(
                    old(disk).contents(),
                    fat.ebpb,
                    c as int,
                ) ==> final(self).entry() == spec_fat_entry(old(disk).contents(), fat.ebpb, c as int)),
                Err(_) => *final(self) == *old(self),
            },
            old(disk).reliable() ==> match old(self).entry() {
                FatEntry::Node(c) => fat_read_ok(old(disk).contents(), fat.ebpb, c as int)
                    ==> r == Ok::<Option<u32>, FsError>(Some(c)),
                _ => true,
            },
    {
        let current = match self.current_entry {
            FatEntry::Node(cluster) => cluster,
            FatEntry::End => { return Ok(None) },
            FatEntry::BadBlock => { return Err(FsError::BadBlock) },
        };
        match self.read_entry(fat, disk, current) {
            Ok(entry) => {
                self.current_entry = entry;
                Ok(Some(current))
            },
            Err(e) => Err(e),
        }
    }
}

} // verus!
