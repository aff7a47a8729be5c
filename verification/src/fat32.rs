//! The FAT32 volume: geometry decoded once at mount, and the derived
//! quantities every layer above recomputes on demand.
//!
//! Quantities follow the format's arithmetic: the FAT size comes from
//! the 32-bit field when the 16-bit one is zero, the first data sector
//! follows the reserved region and the FATs, a cluster's first sector
//! is offset by its index minus the two reserved cluster numbers, and
//! the cluster count divides the data region by the cluster size.

use vstd::arithmetic::div_mod::{lemma_fundamental_div_mod, lemma_mod_multiples_basic};
use vstd::arithmetic::mul::{lemma_mul_inequality, lemma_mul_upper_bound};
use vstd::prelude::*;

use crate::bpb::{ebpb_matches, spec_le16, Ebpb};
use crate::cluster::{
    fat_read_ok, lemma_fat_read_ok_in_range, spec_fat_entry, ClusterChain, FatEntry,
};
use crate::directory::{decode_directories, dir_views, spec_decode, DirView, Directory};
use crate::disk::{Disk, DiskError, SECTOR_SIZE};
use crate::file::{File, FilePointer};

verus! {

/// Failures of the filesystem layers, one variant per distinct
/// condition: I/O failures keep the device's own error, structural
/// inconsistencies and resolution failures each have their own.
#[derive(Debug, Clone, Copy, PartialEq, Eq, Structural)]
pub enum FsError {
    /// The device failed the read.
    Io(DiskError),
    /// The boot sector declares zero bytes per sector or zero sectors
    /// per cluster; every derived quantity would be meaningless.
    InvalidGeometry,
    /// The device returned fewer sectors than the structure needs.
    ShortRead,
    /// The FAT marks a cluster of the chain as bad; distinct from the
    /// end of the chain.
    BadBlock,
    /// The chain walked into cluster number 0 or 1, which never refer
    /// to data.
    ReservedCluster,
    /// The chain is longer than the volume has clusters, so it must
    /// cycle; surfaced instead of walking forever.
    ChainTooLong,
    /// No entry of the directory bears the looked-up name.
    NotFound,
    /// A path went on below an entry that is not a directory.
    NotAFolder,
    /// The output buffer is not a whole number of clusters.
    UnalignedLength,
    /// No open descriptor bears the given number.
    BadDescriptor,
    /// Every descriptor number is taken.
    TooManyOpen,
    /// Advancing the cursor would move it past the machine's address
    /// range.
    CursorOverflow,
}

/// Usable geometry: both divisors of the volume arithmetic are nonzero.
pub open spec fn spec_wf(e: Ebpb) -> bool {
    &&& e.bpb.bytes_per_sector != 0
    &&& e.bpb.sectors_per_cluster != 0
}

/// Sectors per FAT: the 32-bit field when the 16-bit one is zero.
pub open spec fn spec_fat_size(e: Ebpb) -> u32 {
    if e.bpb.sectors_per_fat == 0 {
        e.sectors_per_fat
    } else {
        e.bpb.sectors_per_fat as u32
    }
}

/// First sector after the reserved region and the FATs. The root
/// directory region of earlier FAT versions has size zero here.
pub open spec fn spec_first_data_sector(e: Ebpb) -> int {
    e.bpb.reserved_sectors_count + e.bpb.table_count * spec_fat_size(e)
}

/// Bytes in one cluster.
pub open spec fn spec_bytes_in_cluster(e: Ebpb) -> int {
    e.bpb.sectors_per_cluster * e.bpb.bytes_per_sector
}

/// First sector of a data cluster; meaningful for cluster numbers of
/// at least 2.
pub open spec fn spec_first_sector_of_cluster(e: Ebpb, cluster: int) -> int {
    spec_first_data_sector(e) + (cluster - 2) * e.bpb.sectors_per_cluster
}

/// How many clusters the data region holds.
pub open spec fn spec_total_clusters(e: Ebpb) -> int {
    let used = e.bpb.reserved_sectors_count + e.bpb.table_count * spec_fat_size(e);
    if e.bpb.total_sectors_large <= used {
        0
    } else {
        (e.bpb.total_sectors_large - used) / (e.bpb.sectors_per_cluster as int)
    }
}


/// Fuel for chain walks: a chain without repeated clusters has at most
/// as many elements as the volume has clusters, so one more step than
/// that proves a cycle.
pub open spec fn spec_chain_fuel(e: Ebpb) -> nat {
    (spec_total_clusters(e) + 1) as nat
}

/// The ordered clusters of the chain starting at `entry`, or the
/// structural failure the walk runs into: a bad-block marker, a
/// reserved cluster number, or a chain longer than the fuel allows.
pub open spec fn spec_chain(contents: Seq<u8>, e: Ebpb, entry: FatEntry, fuel: nat) -> Result<
    Seq<u32>,
    FsError,
>
    decreases fuel,
{
    match entry {
        FatEntry::End => Ok(Seq::empty()),
        FatEntry::BadBlock => Err(FsError::BadBlock),
        FatEntry::Node(c) => {
            if c < 2 {
                Err(FsError::ReservedCluster)
            } else if fuel == 0 {
                Err(FsError::ChainTooLong)
            } else {
                match spec_chain(contents, e, spec_fat_entry(contents, e, c as int), (fuel - 1) as nat) {
                    Ok(rest) => Ok(seq![c] + rest),
                    Err(err) => Err(err),
                }
            }
        },
    }
}

/// Byte position of cluster `c`'s data on the device.
pub open spec fn spec_cluster_pos(e: Ebpb, c: u32) -> int {
    spec_first_sector_of_cluster(e, c as int) * SECTOR_SIZE
}

/// The data bytes of cluster `c`.
pub open spec fn spec_cluster_bytes(contents: Seq<u8>, e: Ebpb, c: u32) -> Seq<u8> {
    contents.subrange(spec_cluster_pos(e, c), spec_cluster_pos(e, c) + spec_bytes_in_cluster(e))
}

/// A reliable device owes the read of cluster `c`'s data: usable
/// geometry, whole device blocks per sector, a cluster small enough
/// for one read call, and data that lies within the device contents.
pub open spec fn cluster_read_ok(contents: Seq<u8>, e: Ebpb, c: u32) -> bool {
    &&& spec_wf(e)
    &&& e.bpb.bytes_per_sector as int % (SECTOR_SIZE as int) == 0
    &&& spec_bytes_in_cluster(e) / (SECTOR_SIZE as int) <= 127
    &&& spec_cluster_pos(e, c) >= 0
    &&& spec_cluster_pos(e, c) + spec_bytes_in_cluster(e) <= contents.len()
}

/// Every read a folder walk starting at `entry` can perform is owed:
/// the FAT entry of each cluster it steps from, and the data of each
/// cluster it decodes.
pub open spec fn folder_walk_ok(contents: Seq<u8>, e: Ebpb, entry: FatEntry, fuel: nat) -> bool
    decreases fuel,
{
    match entry {
        FatEntry::Node(c) => fat_read_ok(contents, e, c as int) && (c >= 2 && fuel > 0
            ==> cluster_read_ok(contents, e, c) && folder_walk_ok(
            contents,
            e,
            spec_fat_entry(contents, e, c as int),
            (fuel - 1) as nat,
        )),
        _ => true,
    }
}

/// The entries of a folder whose chain holds `clusters`: each
/// cluster's slot region decoded on its own, in chain order.
pub open spec fn spec_chain_dirs(contents: Seq<u8>, e: Ebpb, clusters: Seq<u32>) -> Seq<DirView>
    decreases clusters.len(),
{
    if clusters.len() == 0 {
        Seq::empty()
    } else {
        spec_decode(spec_cluster_bytes(contents, e, clusters[0])) + spec_chain_dirs(
            contents,
            e,
            clusters.skip(1),
        )
    }
}

/// The entries of the folder rooted at `cluster`, or the structural
/// failure its chain runs into.
pub open spec fn spec_folder(contents: Seq<u8>, e: Ebpb, cluster: u32) -> Result<
    Seq<DirView>,
    FsError,
> {
    match spec_chain(contents, e, FatEntry::Node(cluster), spec_chain_fuel(e)) {
        Ok(clusters) => Ok(spec_chain_dirs(contents, e, clusters)),
        Err(err) => Err(err),
    }
}

/// Decoding distributes over chains joined end to end.
proof fn lemma_chain_dirs_concat(contents: Seq<u8>, e: Ebpb, a: Seq<u32>, b: Seq<u32>)
    ensures
        spec_chain_dirs(contents, e, a + b) == spec_chain_dirs(contents, e, a) + spec_chain_dirs(
            contents,
            e,
            b,
        ),
    decreases a.len(),
{
    if a.len() == 0 {
        assert(a + b =~= b);
        assert(spec_chain_dirs(contents, e, a) + spec_chain_dirs(contents, e, b)
            =~= spec_chain_dirs(contents, e, b));
    } else {
        lemma_chain_dirs_concat(contents, e, a.skip(1), b);
        assert((a + b).skip(1) =~= a.skip(1) + b);
        assert((a + b)[0] == a[0]);
        assert(spec_decode(spec_cluster_bytes(contents, e, a[0])) + (spec_chain_dirs(
            contents,
            e,
            a.skip(1),
        ) + spec_chain_dirs(contents, e, b)) =~= (spec_decode(
            spec_cluster_bytes(contents, e, a[0]),
        ) + spec_chain_dirs(contents, e, a.skip(1))) + spec_chain_dirs(contents, e, b));
    }
}

/// Index of the first entry bearing `name`, or -1.
pub open spec fn spec_first_match(dirs: Seq<DirView>, name: Seq<char>) -> int
    decreases dirs.len(),
{
    if dirs.len() == 0 {
        -1
    } else if dirs[0].name == name {
        0
    } else {
        let rest = spec_first_match(dirs.skip(1), name);
        if rest < 0 {
            -1
        } else {
            rest + 1
        }
    }
}

proof fn lemma_first_match_at(dirs: Seq<DirView>, name: Seq<char>, j: int)
    requires
        0 <= j < dirs.len(),
        forall|k: int| 0 <= k < j ==> dirs[k].name != name,
        dirs[j].name == name,
    ensures
        spec_first_match(dirs, name) == j,
    decreases j,
{
    if j > 0 {
        lemma_first_match_at(dirs.skip(1), name, j - 1);
    }
}

proof fn lemma_first_match_none(dirs: Seq<DirView>, name: Seq<char>)
    requires
        forall|k: int| 0 <= k < dirs.len() ==> dirs[k].name != name,
    ensures
        spec_first_match(dirs, name) == -1,
    decreases dirs.len(),
{
    if dirs.len() > 0 {
        lemma_first_match_none(dirs.skip(1), name);
    }
}

/// Resolution of the path segments `segs[i..]` against the directory
/// rooted at `cluster`: find the segment's entry (first match, exact,
/// case-sensitive), descend while the entry is a directory and
/// segments remain, answer the entry when they run out, and fail with
/// the proper condition otherwise.
pub open spec fn spec_find(
    contents: Seq<u8>,
    e: Ebpb,
    cluster: u32,
    segs: Seq<Seq<char>>,
    i: int,
) -> Result<DirView, FsError>
    decreases segs.len() - i,
{
    if i < 0 || i >= segs.len() {
        Err(FsError::NotFound)
    } else {
        match spec_folder(contents, e, cluster) {
            Err(err) => Err(err),
            Ok(dirs) => {
                let j = spec_first_match(dirs, segs[i]);
                if j < 0 {
                    Err(FsError::NotFound)
                } else {
                    let d = dirs[j];
                    if d.is_folder() {
                        if i + 1 == segs.len() {
                            Ok(d)
                        } else {
                            spec_find(contents, e, d.cluster(), segs, i + 1)
                        }
                    } else {
                        if i + 1 == segs.len() {
                            Ok(d)
                        } else {
                            Err(FsError::NotAFolder)
                        }
                    }
                }
            },
        }
    }
}

/// Every read the resolution of `segs[i..]` performs is owed.
pub open spec fn find_ok(
    contents: Seq<u8>,
    e: Ebpb,
    cluster: u32,
    segs: Seq<Seq<char>>,
    i: int,
) -> bool
    decreases segs.len() - i,
{
    i >= segs.len() || {
        &&& folder_walk_ok(contents, e, FatEntry::Node(cluster), spec_chain_fuel(e))
        &&& match spec_folder(contents, e, cluster) {
            Err(_) => true,
            Ok(dirs) => {
                let j = spec_first_match(dirs, segs[i]);
                (j >= 0 && dirs[j].is_folder() && i + 1 < segs.len()) ==> find_ok(
                    contents,
                    e,
                    dirs[j].cluster(),
                    segs,
                    i + 1,
                )
            },
        }
    }
}

/// A mounted FAT32 volume: the decoded boot record.
pub struct Fat32 {
    /// The boot record decoded at mount.
    pub ebpb: Ebpb,
}

impl Fat32 {
    /// Usable geometry, established at mount and preserved forever.
    pub open spec fn wf(&self) -> bool {
        spec_wf(self.ebpb)
    }

    /// Mount: read the boot sector, decode it, and reject a record
    /// whose bytes-per-sector or sectors-per-cluster is zero.
    pub fn new<D: Disk>(disk: &mut D) -> (r: Result<Fat32, FsError>)
        ensures
            final(disk).contents() == old(disk).contents(),
            final(disk).reliable() == old(disk).reliable(),
            r matches Ok(f) ==> f.wf(),
            old(disk).reliable() && old(disk).contents().len() >= SECTOR_SIZE ==> {
                let sector = old(disk).contents().subrange(0, SECTOR_SIZE as int);
                if spec_le16(sector, 11) != 0 && sector[13] != 0 {
                    r matches Ok(f) && ebpb_matches(f.ebpb, sector)
                } else {
                    r == Err::<Fat32, FsError>(FsError::InvalidGeometry)
                }
            },
    {
        let mut boot_record: Vec<u8> = vec![0u8; SECTOR_SIZE];
        let k = match disk.read(0, &mut boot_record) {
            Ok(k) => k,
            Err(e) => { return Err(FsError::Io(e)) },
        };
        if (k as usize) * SECTOR_SIZE < SECTOR_SIZE {
            return Err(FsError::ShortRead);
        }
        proof {
            if old(disk).contents().len() >= SECTOR_SIZE {
                assert(boot_record@ =~= old(disk).contents().subrange(0, SECTOR_SIZE as int));
            }
        }
        let ebpb = crate::bpb::Ebpb::parse(&boot_record);
        if ebpb.bpb.bytes_per_sector == 0 || ebpb.bpb.sectors_per_cluster == 0 {
            return Err(FsError::InvalidGeometry);
        }
        Ok(Fat32 { ebpb })
    }

    /// Sectors per FAT.
    pub fn get_fat_size(&self) -> (r: u32)
        ensures
            r == spec_fat_size(self.ebpb),
    {
        if self.ebpb.bpb.sectors_per_fat == 0 {
            return self.ebpb.sectors_per_fat;
        }
        self.ebpb.bpb.sectors_per_fat as u32
    }

    /// Sectors of the legacy root directory region: always zero on
    /// FAT32, whose root directory lives in ordinary clusters.
    pub fn get_root_dir_sector(&self) -> (r: u32)
        ensures
            r == 0,
    {
        0
    }

    /// First sector of the data region.
    pub fn get_first_data_sector(&self) -> (r: u64)
        ensures
            r == spec_first_data_sector(self.ebpb),
    {
        proof {
            lemma_mul_upper_bound(
                self.ebpb.bpb.table_count as int,
                0xFF,
                spec_fat_size(self.ebpb) as int,
                0xFFFFFFFF,
            );
        }
        self.ebpb.bpb.reserved_sectors_count as u64 + self.ebpb.bpb.table_count as u64
            * self.get_fat_size() as u64
    }

    /// Bytes in one cluster.
    pub fn get_bytes_in_cluster(&self) -> (r: u32)
        ensures
            r == spec_bytes_in_cluster(self.ebpb),
    {
        proof {
            lemma_mul_upper_bound(
                self.ebpb.bpb.sectors_per_cluster as int,
                0xFF,
                self.ebpb.bpb.bytes_per_sector as int,
                0xFFFF,
            );
        }
        self.ebpb.bpb.sectors_per_cluster as u32 * self.ebpb.bpb.bytes_per_sector as u32
    }

    /// First sector of the given data cluster.
    pub fn first_sector_of_cluster(&self, cluster: u32) -> (r: u64)
        requires
            cluster >= 2,
        ensures
            r == spec_first_sector_of_cluster(self.ebpb, cluster as int),
    {
        proof {
            lemma_mul_upper_bound(
                cluster as int - 2,
                0xFFFFFFFF,
                self.ebpb.bpb.sectors_per_cluster as int,
                0xFF,
            );
            lemma_mul_upper_bound(
                self.ebpb.bpb.table_count as int,
                0xFF,
                spec_fat_size(self.ebpb) as int,
                0xFFFFFFFF,
            );
        }
        self.get_first_data_sector() + (cluster - 2) as u64
            * self.ebpb.bpb.sectors_per_cluster as u64
    }

    /// How many clusters the data region holds.
    pub fn get_total_clusters(&self) -> (r: u32)
        requires
            self.wf(),
        ensures
            r == spec_total_clusters(self.ebpb),
    {
        proof {
            lemma_mul_upper_bound(
                self.ebpb.bpb.table_count as int,
                0xFF,
                spec_fat_size(self.ebpb) as int,
                0xFFFFFFFF,
            );
        }
        let used: u64 = self.ebpb.bpb.reserved_sectors_count as u64 + self.ebpb.bpb.table_count
            as u64 * self.get_fat_size() as u64;
        let total: u64 = self.ebpb.bpb.total_sectors_large as u64;
        if total <= used {
            0
        } else {
            ((total - used) / self.ebpb.bpb.sectors_per_cluster as u64) as u32
        }
    }

    /// Read one cluster's data and decode its directory slots,
    /// appending the resolved entries.
    pub fn read_directories_from_cluster<D: Disk>(
        &self,
        disk: &mut D,
        cluster: u32,
        directories: &mut Vec<Directory>,
    ) -> (r: Result<(), FsError>)
        requires
            self.wf(),
            cluster >= 2,
        ensures
            final(disk).contents() == old(disk).contents(),
            final(disk).reliable() == old(disk).reliable(),
            r is Ok ==> ((spec_cluster_pos(self.ebpb, cluster) >= 0 && spec_cluster_pos(
                self.ebpb,
                cluster,
            ) + spec_bytes_in_cluster(self.ebpb) <= old(disk).contents().len()) ==> dir_views(
                final(directories)@,
            ) == dir_views(old(directories)@) + spec_decode(
                spec_cluster_bytes(old(disk).contents(), self.ebpb, cluster),
            )),
            r is Err ==> *final(directories) == *old(directories),
            old(disk).reliable() && cluster_read_ok(old(disk).contents(), self.ebpb, cluster)
                ==> r is Ok,
    {
        proof {
            lemma_mul_inequality(1, self.ebpb.bpb.sectors_per_cluster as int, self.ebpb.bpb.bytes_per_sector as int);
            if self.ebpb.bpb.bytes_per_sector as int % (SECTOR_SIZE as int) == 0 {
                let bps = self.ebpb.bpb.bytes_per_sector as int;
                let spc = self.ebpb.bpb.sectors_per_cluster as int;
                let q = bps / (SECTOR_SIZE as int);
                lemma_fundamental_div_mod(bps, SECTOR_SIZE as int);
                assert(spc * bps == (spc * q) * SECTOR_SIZE) by (nonlinear_arith)
                    requires bps == q * (SECTOR_SIZE as int),
                ;
                lemma_mod_multiples_basic(spc * q, SECTOR_SIZE as int);
            }
        }
        let cluster_size: usize = self.get_bytes_in_cluster() as usize;
        let mut buffer: Vec<u8> = vec![0u8; cluster_size];
        let sector = self.first_sector_of_cluster(cluster);
        let k = match disk.read(sector, &mut buffer) {
            Ok(k) => k,
            Err(e) => { return Err(FsError::Io(e)) },
        };
        if (k as usize) * SECTOR_SIZE < cluster_size {
            return Err(FsError::ShortRead);
        }
        proof {
            let contents = old(disk).contents();
            let pos = spec_cluster_pos(self.ebpb, cluster);
            if pos >= 0 && pos + spec_bytes_in_cluster(self.ebpb) <= contents.len() {
                assert(buffer@ =~= spec_cluster_bytes(contents, self.ebpb, cluster));
            }
        }
        decode_directories(&buffer, directories);
        Ok(())
    }

    /// Walk the chain rooted at `first_cluster`, decoding every
    /// cluster's directory slots in order. Chain conditions surface as
    /// their own failures: a bad block, a reserved cluster number, or
    /// a chain so long it must cycle.
    pub fn read_cluster_chain<D: Disk>(
        &self,
        disk: &mut D,
        first_cluster: u32,
        directories: &mut Vec<Directory>,
    ) -> (r: Result<(), FsError>)
        requires
            self.wf(),
        ensures
            final(disk).contents() == old(disk).contents(),
            final(disk).reliable() == old(disk).reliable(),
            old(disk).reliable() && folder_walk_ok(
                old(disk).contents(),
                self.ebpb,
                FatEntry::Node(first_cluster),
                spec_chain_fuel(self.ebpb),
            ) ==> match spec_folder(old(disk).contents(), self.ebpb, first_cluster) {
                Ok(views) => r is Ok && dir_views(final(directories)@) == dir_views(
                    old(directories)@,
                ) + views,
                Err(err) => r == Err::<(), FsError>(err),
            },
    {
        let limit: u64 = self.get_total_clusters() as u64 + 1;
        let mut chain = ClusterChain::new(first_cluster);
        let mut steps: u64 = 0;
        let ghost contents = old(disk).contents();
        let ghost fuel0 = spec_chain_fuel(self.ebpb);
        let ghost target = spec_chain(contents, self.ebpb, FatEntry::Node(first_cluster), fuel0);
        let ghost ok_walk = old(disk).reliable() && folder_walk_ok(
            contents,
            self.ebpb,
            FatEntry::Node(first_cluster),
            fuel0,
        );
        let ghost mut visited: Seq<u32> = Seq::empty();
        proof {
            assert(dir_views(old(directories)@) + spec_chain_dirs(contents, self.ebpb, visited)
                =~= dir_views(old(directories)@));
        }
        loop
            invariant
                self.wf(),
                contents == old(disk).contents(),
                fuel0 == spec_chain_fuel(self.ebpb),
                limit == fuel0,
                steps <= limit,
                disk.contents() == contents,
                disk.reliable() == old(disk).reliable(),
                ok_walk == (old(disk).reliable() && folder_walk_ok(
                    contents,
                    self.ebpb,
                    FatEntry::Node(first_cluster),
                    fuel0,
                )),
                target == spec_chain(contents, self.ebpb, FatEntry::Node(first_cluster), fuel0),
                ok_walk ==> {
                    &&& folder_walk_ok(contents, self.ebpb, chain.entry(), (limit - steps) as nat)
                    &&& dir_views(directories@) == dir_views(old(directories)@) + spec_chain_dirs(
                        contents,
                        self.ebpb,
                        visited,
                    )
                    &&& match spec_chain(contents, self.ebpb, chain.entry(), (limit - steps) as nat) {
                        Ok(rest) => target == Ok::<Seq<u32>, FsError>(visited + rest),
                        Err(err) => target == Err::<Seq<u32>, FsError>(err),
                    }
                },
            decreases limit - steps,
        {
            let stepped = match chain.next(self, disk) {
                Ok(stepped) => stepped,
                Err(e) => {
                    proof {
                        if ok_walk {
                            assert(chain.entry() is BadBlock);
                            assert(e == FsError::BadBlock);
                        }
                    }
                    return Err(e);
                },
            };
            let cluster = match stepped {
                Some(cluster) => cluster,
                None => {
                    proof {
                        if ok_walk {
                            assert(visited + Seq::<u32>::empty() =~= visited);
                        }
                    }
                    return Ok(());
                },
            };
            proof {
                if ok_walk {
                    lemma_fat_read_ok_in_range(contents, self.ebpb, cluster as int);
                }
            }
            if cluster < 2 {
                return Err(FsError::ReservedCluster);
            }
            if steps >= limit {
                return Err(FsError::ChainTooLong);
            }
            let ghost dirs_before = directories@;
            proof {
                if ok_walk {
                    assert(folder_walk_ok(contents, self.ebpb, FatEntry::Node(cluster), (limit
                        - steps) as nat));
                    assert(cluster_read_ok(contents, self.ebpb, cluster));
                }
            }
            let r = self.read_directories_from_cluster(disk, cluster, directories);
            match r {
                Ok(()) => {},
                Err(e) => { return Err(e) },
            }
            let ghost visited_prev = visited;
            proof {
                let visited_old = visited;
                visited = visited + seq![cluster];
                if ok_walk {
                    assert(dir_views(directories@) == dir_views(dirs_before) + spec_decode(
                        spec_cluster_bytes(contents, self.ebpb, cluster),
                    ));
                    lemma_chain_dirs_concat(contents, self.ebpb, visited_old, seq![cluster]);
                    assert(seq![cluster].skip(1) =~= Seq::<u32>::empty());
                    assert(spec_chain_dirs(contents, self.ebpb, Seq::<u32>::empty())
                        =~= Seq::<DirView>::empty());
                    assert(seq![cluster][0] == cluster);
                    assert(spec_chain_dirs(contents, self.ebpb, seq![cluster]) =~= spec_decode(
                        spec_cluster_bytes(contents, self.ebpb, cluster),
                    ));
                    assert(dir_views(directories@) =~= dir_views(old(directories)@)
                        + spec_chain_dirs(contents, self.ebpb, visited));
                }
            }
            steps += 1;
            proof {
                if ok_walk {
                    assert(chain.entry() == spec_fat_entry(contents, self.ebpb, cluster as int));
                    assert(folder_walk_ok(contents, self.ebpb, chain.entry(), (limit - steps) as nat));
                    assert(dir_views(directories@) == dir_views(old(directories)@)
                        + spec_chain_dirs(contents, self.ebpb, visited));
                    match spec_chain(contents, self.ebpb, chain.entry(), (limit - steps) as nat) {
                        Ok(rest) => {
                            assert(spec_chain(contents, self.ebpb, FatEntry::Node(cluster), (limit
                                - steps + 1) as nat) == Ok::<Seq<u32>, FsError>(seq![cluster] + rest));
                            assert((visited_prev + (seq![cluster] + rest)) =~= (visited + rest));
                            assert(target == Ok::<Seq<u32>, FsError>(visited + rest));
                        },
                        Err(err) => {
                            assert(spec_chain(contents, self.ebpb, FatEntry::Node(cluster), (limit
                                - steps + 1) as nat) == Err::<Seq<u32>, FsError>(err));
                            assert(target == Err::<Seq<u32>, FsError>(err));
                        },
                    }
                }
            }
        }
    }

    /// The resolved entries of the folder rooted at `cluster`.
    pub fn read_folder<D: Disk>(&self, disk: &mut D, cluster: u32) -> (r: Result<
        Vec<Directory>,
        FsError,
    >)
        requires
            self.wf(),
        ensures
            final(disk).contents() == old(disk).contents(),
            final(disk).reliable() == old(disk).reliable(),
            old(disk).reliable() && folder_walk_ok(
                old(disk).contents(),
                self.ebpb,
                FatEntry::Node(cluster),
                spec_chain_fuel(self.ebpb),
            ) ==> match spec_folder(old(disk).contents(), self.ebpb, cluster) {
                Ok(views) => r matches Ok(v) && dir_views(v@) == views,
                Err(err) => r == Err::<Vec<Directory>, FsError>(err),
            },
    {
        let mut directories: Vec<Directory> = Vec::new();
        proof {
            assert(dir_views(directories@) =~= Seq::<DirView>::empty());
        }
        match self.read_cluster_chain(disk, cluster, &mut directories) {
            Ok(()) => {
                proof {
                    if old(disk).reliable() && folder_walk_ok(
                        old(disk).contents(),
                        self.ebpb,
                        FatEntry::Node(cluster),
                        spec_chain_fuel(self.ebpb),
                    ) {
                        match spec_folder(old(disk).contents(), self.ebpb, cluster) {
                            Ok(views) => {
                                assert(Seq::<DirView>::empty() + views =~= views);
                            },
                            Err(_) => {},
                        }
                    }
                }
                Ok(directories)
            },
            Err(e) => Err(e),
        }
    }

    /// Resolve a slash-split path against the directory rooted at
    /// `cluster`: iterative descent with an explicit current-directory
    /// cluster, one segment at a time. A missing name is a lookup
    /// failure; path segments below a file are their own failure.
    pub fn find_file<D: Disk>(&self, disk: &mut D, cluster: u32, path: &Vec<Vec<char>>) -> (r:
        Result<Directory, FsError>)
        requires
            self.wf(),
        ensures
            final(disk).contents() == old(disk).contents(),
            final(disk).reliable() == old(disk).reliable(),
            old(disk).reliable() && find_ok(
                old(disk).contents(),
                self.ebpb,
                cluster,
                seg_views(path@),
                0,
            ) ==> match spec_find(old(disk).contents(), self.ebpb, cluster, seg_views(path@), 0) {
                Ok(v) => r matches Ok(d) && d@ == v,
                Err(err) => r == Err::<Directory, FsError>(err),
            },
    {
        let ghost contents = old(disk).contents();
        let ghost segs = seg_views(path@);
        let ghost okc = old(disk).reliable() && find_ok(contents, self.ebpb, cluster, segs, 0);
        let mut current = cluster;
        let mut i: usize = 0;
        while i < path.len()
            invariant
                self.wf(),
                contents == old(disk).contents(),
                segs == seg_views(path@),
                segs.len() == path@.len(),
                disk.contents() == contents,
                disk.reliable() == old(disk).reliable(),
                i <= path.len(),
                okc == (old(disk).reliable() && find_ok(contents, self.ebpb, cluster, segs, 0)),
                okc ==> find_ok(contents, self.ebpb, current, segs, i as int),
                okc ==> spec_find(contents, self.ebpb, cluster, segs, 0) == spec_find(
                    contents,
                    self.ebpb,
                    current,
                    segs,
                    i as int,
                ),
            decreases path.len() - i,
        {
            let dirs = match self.read_folder(disk, current) {
                Ok(dirs) => dirs,
                Err(e) => { return Err(e) },
            };
            proof {
                assert(segs[i as int] == path@[i as int]@);
            }
            match find_entry(&dirs, &path[i]) {
                None => { return Err(FsError::NotFound) },
                Some(j) => {
                    let d = &dirs[j];
                    proof {
                        assert(d@ == dir_views(dirs@)[j as int]);
                    }
                    if d.get_fat_dir().is_folder() {
                        if i + 1 == path.len() {
                            return Ok(d.clone());
                        }
                        current = d.get_cluster();
                        i += 1;
                    } else {
                        if i + 1 == path.len() {
                            return Ok(d.clone());
                        }
                        return Err(FsError::NotAFolder);
                    }
                },
            }
        }
        Err(FsError::NotFound)
    }

    /// Resolve a `/`-delimited path from the volume's root directory
    /// and open a cursor at offset zero on the resolved record.
    pub fn open_file<D: Disk>(&self, disk: &mut D, file_name: &str) -> (r: Result<
        FilePointer<Directory>,
        FsError,
    >)
        requires
            self.wf(),
        ensures
            final(disk).contents() == old(disk).contents(),
            final(disk).reliable() == old(disk).reliable(),
            old(disk).reliable() && find_ok(
                old(disk).contents(),
                self.ebpb,
                self.ebpb.root_dir_cluster,
                crate::text::spec_split(file_name@),
                0,
            ) ==> match spec_find(
                old(disk).contents(),
                self.ebpb,
                self.ebpb.root_dir_cluster,
                crate::text::spec_split(file_name@),
                0,
            ) {
                Ok(v) => r matches Ok(fp) && fp.spec_file()@ == v && fp.spec_pos() == 0,
                Err(err) => r == Err::<FilePointer<Directory>, FsError>(err),
            },
    {
        let chars = crate::text::str_chars(file_name);
        let path = crate::text::split_slash(&chars);
        proof {
            assert(seg_views(path@) == crate::text::spec_split(file_name@));
        }
        match self.find_file(disk, self.ebpb.root_dir_cluster, &path) {
            Ok(file) => Ok(FilePointer::new(file, 0)),
            Err(e) => Err(e),
        }
    }

    /// Stream file content, whole clusters at a time, into the
    /// caller's buffer, whose length must be a whole number of
    /// clusters (a documented limitation of this design). Copying
    /// starts at the cluster holding the cursor offset and stops when
    /// the buffer is full, the file's declared size is reached, or the
    /// chain ends; the call returns the number of bytes actually
    /// copied into the buffer.
    pub fn read_file<D: Disk>(
        &self,
        disk: &mut D,
        file_pointer: &FilePointer<Directory>,
        buffer: &mut Vec<u8>,
    ) -> (r: Result<usize, FsError>)
        requires
            self.wf(),
        ensures
            final(disk).contents() == old(disk).contents(),
            final(disk).reliable() == old(disk).reliable(),
            final(buffer).len() == old(buffer).len(),
            old(buffer)@.len() as int % spec_bytes_in_cluster(self.ebpb) != 0 ==> r == Err::<
                usize,
                FsError,
            >(FsError::UnalignedLength) && *final(buffer) == *old(buffer) && *final(disk) == *old(
                disk,
            ),
            old(disk).reliable() && file_read_ok(
                old(disk).contents(),
                self.ebpb,
                file_pointer.spec_file()@.cluster(),
                file_pointer.spec_pos() as int,
                file_pointer.spec_file()@.file_size as int,
                old(buffer)@.len() as int,
            ) ==> {
                let cs = spec_bytes_in_cluster(self.ebpb);
                let parts = spec_read_parts(
                    file_pointer.spec_pos() as int,
                    file_pointer.spec_file()@.file_size as int,
                    old(buffer)@.len() as int,
                    cs,
                    0,
                );
                match spec_chain(
                    old(disk).contents(),
                    self.ebpb,
                    FatEntry::Node(file_pointer.spec_file()@.cluster()),
                    spec_chain_fuel(self.ebpb),
                ) {
                    Ok(cl) => r == Ok::<usize, FsError>((parts * cs) as usize) && forall|b: int|
                        0 <= b < parts * cs ==> final(buffer)@[b] == spec_file_byte(
                            old(disk).contents(),
                            self.ebpb,
                            cl,
                            file_pointer.spec_pos() as int / cs,
                            b,
                        ),
                    Err(_) => true,
                }
            },
    {
        let ghost contents = old(disk).contents();
        let read_length: usize = buffer.len();
        let file = file_pointer.get_file();
        let file_size: usize = crate::file::File::get_size(file);
        let read_start: usize = file_pointer.get_pos();
        proof {
            lemma_mul_inequality(
                1,
                self.ebpb.bpb.sectors_per_cluster as int,
                self.ebpb.bpb.bytes_per_sector as int,
            );
        }
        let cluster_size: usize = self.get_bytes_in_cluster() as usize;
        if read_length % cluster_size != 0 {
            return Err(FsError::UnalignedLength);
        }
        let starting_cluster: u32 = file.get_fat_dir().get_cluster();
        let ghost fuel0 = spec_chain_fuel(self.ebpb);
        let ghost chain_result = spec_chain(
            contents,
            self.ebpb,
            FatEntry::Node(starting_cluster),
            fuel0,
        );
        let ghost okf = old(disk).reliable() && file_read_ok(
            contents,
            self.ebpb,
            starting_cluster,
            read_start as int,
            file_size as int,
            read_length as int,
        );
        let ghost cl = match chain_result {
            Ok(cl) => cl,
            Err(_) => Seq::<u32>::empty(),
        };
        let ghost parts = spec_read_parts(
            read_start as int,
            file_size as int,
            read_length as int,
            cluster_size as int,
            0,
        );
        proof {
            lemma_chain_len(contents, self.ebpb, FatEntry::Node(starting_cluster), fuel0);
            lemma_read_parts_bounds(
                read_start as int,
                file_size as int,
                read_length as int,
                cluster_size as int,
                0,
            );
            assert(cl.skip(0) =~= cl);
        }
        let skip: usize = read_start / cluster_size;
        let mut chain = ClusterChain::new(starting_cluster);

        // Skip the clusters before the one holding the cursor offset,
        // then take that cluster itself from the walker.
        let mut idx: usize = 0;
        while idx < skip
            invariant
                self.wf(),
                contents == old(disk).contents(),
                disk.contents() == contents,
                disk.reliable() == old(disk).reliable(),
                fuel0 == spec_chain_fuel(self.ebpb),
                chain_result == spec_chain(
                    contents,
                    self.ebpb,
                    FatEntry::Node(starting_cluster),
                    fuel0,
                ),
                starting_cluster == file_pointer.spec_file()@.cluster(),
                read_start == file_pointer.spec_pos(),
                file_size as int == file_pointer.spec_file()@.file_size as int,
                okf == (old(disk).reliable() && file_read_ok(
                    contents,
                    self.ebpb,
                    starting_cluster,
                    read_start as int,
                    file_size as int,
                    read_length as int,
                )),
                okf ==> chain_result == Ok::<Seq<u32>, FsError>(cl),
                okf ==> cl.len() <= fuel0,
                okf ==> parts == spec_read_parts(
                    read_start as int,
                    file_size as int,
                    read_length as int,
                    cluster_size as int,
                    0,
                ),
                parts >= 0,
                cluster_size as int == spec_bytes_in_cluster(self.ebpb),
                cluster_size > 0,
                read_length as int % (cluster_size as int) == 0,
                skip == read_start as int / cluster_size as int,
                okf ==> skip + parts <= cl.len(),
                idx <= skip,
                okf ==> idx <= cl.len(),
                okf ==> folder_walk_ok(contents, self.ebpb, chain.entry(), (fuel0 - idx) as nat),
                okf ==> spec_chain(contents, self.ebpb, chain.entry(), (fuel0 - idx) as nat)
                    == Ok::<Seq<u32>, FsError>(cl.skip(idx as int)),
                buffer@.len() == read_length,
                old(buffer)@.len() == read_length,
            decreases skip - idx,
        {
            let stepped = match chain.next(self, disk) {
                Ok(stepped) => stepped,
                Err(e) => { return Err(e) },
            };
            match stepped {
                Some(c) => {
                    proof {
                        if okf {
                            assert(idx < cl.len());
                            assert(cl.skip(idx as int)[0] == cl[idx as int]);
                            lemma_fat_read_ok_in_range(contents, self.ebpb, c as int);
                            assert(chain.entry() == spec_fat_entry(contents, self.ebpb, c as int));
                            assert(cl.skip(idx as int) =~= seq![cl[idx as int]] + cl.skip(idx + 1));
                            match spec_chain(
                                contents,
                                self.ebpb,
                                chain.entry(),
                                (fuel0 - (idx + 1)) as nat,
                            ) {
                                Ok(rest2) => {
                                    assert(seq![c] + rest2 == cl.skip(idx as int));
                                    assert(rest2 =~= (seq![c] + rest2).skip(1));
                                    assert(cl.skip(idx as int).skip(1) =~= cl.skip(idx + 1));
                                },
                                Err(_) => { assert(false); },
                            }
                        }
                    }
                    idx += 1;
                },
                None => {
                    proof {
                        if okf {
                            assert(cl.skip(idx as int) =~= Seq::<u32>::empty());
                            assert(cl.len() == idx);
                        }
                    }
                    return Ok(0);
                },
            }
        }
        let current_first = match chain.next(self, disk) {
            Ok(Some(c)) => c,
            Ok(None) => {
                proof {
                    if okf {
                        assert(cl.skip(skip as int) =~= Seq::<u32>::empty());
                        assert(cl.len() == skip);
                    }
                }
                return Ok(0);
            },
            Err(e) => { return Err(e) },
        };
        proof {
            if okf {
                assert(skip < cl.len());
                assert(cl.skip(skip as int)[0] == cl[skip as int]);
                lemma_fat_read_ok_in_range(contents, self.ebpb, current_first as int);
                assert(cl.skip(skip as int) =~= seq![cl[skip as int]] + cl.skip(skip + 1));
                match spec_chain(
                    contents,
                    self.ebpb,
                    chain.entry(),
                    (fuel0 - (skip + 1)) as nat,
                ) {
                    Ok(rest2) => {
                        assert(seq![current_first] + rest2 == cl.skip(skip as int));
                        assert(rest2 =~= (seq![current_first] + rest2).skip(1));
                        assert(cl.skip(skip as int).skip(1) =~= cl.skip(skip + 1));
                    },
                    Err(_) => { assert(false); },
                }
            }
        }
        let mut current: u32 = current_first;

        // Copy whole clusters while the file has bytes past the cursor
        // and the buffer has room for another cluster.
        let mut part: usize = 0;
        loop
            invariant
                self.wf(),
                contents == old(disk).contents(),
                disk.contents() == contents,
                disk.reliable() == old(disk).reliable(),
                fuel0 == spec_chain_fuel(self.ebpb),
                chain_result == spec_chain(
                    contents,
                    self.ebpb,
                    FatEntry::Node(starting_cluster),
                    fuel0,
                ),
                starting_cluster == file_pointer.spec_file()@.cluster(),
                read_start == file_pointer.spec_pos(),
                file_size as int == file_pointer.spec_file()@.file_size as int,
                okf == (old(disk).reliable() && file_read_ok(
                    contents,
                    self.ebpb,
                    starting_cluster,
                    read_start as int,
                    file_size as int,
                    read_length as int,
                )),
                okf ==> chain_result == Ok::<Seq<u32>, FsError>(cl),
                okf ==> cl.len() <= fuel0,
                okf ==> parts == spec_read_parts(
                    read_start as int,
                    file_size as int,
                    read_length as int,
                    cluster_size as int,
                    0,
                ),
                okf ==> parts == spec_read_parts(
                    read_start as int,
                    file_size as int,
                    read_length as int,
                    cluster_size as int,
                    part as int,
                ),
                parts >= 0,
                cluster_size as int == spec_bytes_in_cluster(self.ebpb),
                cluster_size > 0,
                read_length as int % (cluster_size as int) == 0,
                skip == read_start as int / cluster_size as int,
                okf ==> skip + parts <= cl.len(),
                part * cluster_size <= read_length,
                okf ==> skip + part <= cl.len(),
                okf ==> (skip + part < cl.len() ==> current == cl[skip + part]),
                okf ==> folder_walk_ok(
                    contents,
                    self.ebpb,
                    chain.entry(),
                    (fuel0 - (skip + part + 1)) as nat,
                ),
                okf ==> spec_chain(
                    contents,
                    self.ebpb,
                    chain.entry(),
                    (fuel0 - (skip + part + 1)) as nat,
                ) == Ok::<Seq<u32>, FsError>(cl.skip(skip + part + 1)),
                buffer@.len() == read_length,
                old(buffer)@.len() == read_length,
                okf ==> forall|b: int|
                    0 <= b < part * cluster_size ==> buffer@[b] == spec_file_byte(
                        contents,
                        self.ebpb,
                        cl,
                        skip as int,
                        b,
                    ),
            decreases read_length - part * cluster_size,
        {
            let in_file: bool = read_start < file_size && part * cluster_size < file_size
                - read_start;
            let in_buffer: bool = cluster_size <= read_length - part * cluster_size;
            if !(in_file && in_buffer) {
                proof {
                    if okf {
                        assert(parts == part as int);
                    }
                }
                return Ok(part * cluster_size);
            }
            proof {
                if okf {
                    assert(skip + part < cl.len()) by {
                        lemma_read_parts_step(
                            read_start as int,
                            file_size as int,
                            read_length as int,
                            cluster_size as int,
                            part as int,
                        );
                    }
                    assert(current == cl[skip + part]);
                    assert(cluster_read_ok(contents, self.ebpb, current) && current >= 2) by {
                        lemma_chain_cluster_ok(
                            contents,
                            self.ebpb,
                            FatEntry::Node(starting_cluster),
                            fuel0,
                            skip + part,
                        );
                    }
                }
            }
            if current < 2 {
                return Err(FsError::ReservedCluster);
            }
            proof {
                if okf {
                    let bps = self.ebpb.bpb.bytes_per_sector as int;
                    let spc = self.ebpb.bpb.sectors_per_cluster as int;
                    let q = bps / (SECTOR_SIZE as int);
                    lemma_fundamental_div_mod(bps, SECTOR_SIZE as int);
                    assert(spc * bps == (spc * q) * SECTOR_SIZE) by (nonlinear_arith)
                        requires bps == q * (SECTOR_SIZE as int),
                    ;
                    lemma_mod_multiples_basic(spc * q, SECTOR_SIZE as int);
                    lemma_fundamental_div_mod(cluster_size as int, SECTOR_SIZE as int);
                }
            }
            let mut temp: Vec<u8> = vec![0u8; cluster_size];
            let sector = self.first_sector_of_cluster(current);
            let k = match disk.read(sector, &mut temp) {
                Ok(k) => k,
                Err(e) => { return Err(FsError::Io(e)) },
            };
            if (k as usize) * SECTOR_SIZE < cluster_size {
                return Err(FsError::ShortRead);
            }
            proof {
                if okf {
                    assert(temp@ =~= spec_cluster_bytes(contents, self.ebpb, current));
                }
            }
            let base: usize = part * cluster_size;
            let ghost buf_snap = buffer@;
            let mut t: usize = 0;
            #[verifier::loop_isolation(false)]
            while t < cluster_size
                invariant
                    t <= cluster_size,
                    buffer@.len() == read_length,
                    forall|b: int| 0 <= b < base ==> buffer@[b] == buf_snap[b],
                    forall|b: int| 0 <= b < t ==> buffer@[base + b] == temp@[b],
                decreases cluster_size - t,
            {
                buffer[base + t] = temp[t];
                t += 1;
            }
            proof {
                if okf {
                    assert forall|b: int| base <= b < base + cluster_size implies buffer@[b]
                        == spec_file_byte(contents, self.ebpb, cl, skip as int, b) by {
                        assert(buffer@[base + (b - base)] == temp@[b - base]);
                        vstd::arithmetic::div_mod::lemma_fundamental_div_mod_converse(
                            b,
                            cluster_size as int,
                            part as int,
                            b - base,
                        );
                    }
                }
            }
            proof {
                lemma_mul_inequality(1, cluster_size as int, part as int);
            }
            part += 1;
            proof {
                assert(part * cluster_size == (part - 1) * cluster_size + cluster_size) by (
                nonlinear_arith);
                if okf {
                    assert(spec_read_parts(
                        read_start as int,
                        file_size as int,
                        read_length as int,
                        cluster_size as int,
                        part - 1,
                    ) == spec_read_parts(
                        read_start as int,
                        file_size as int,
                        read_length as int,
                        cluster_size as int,
                        part as int,
                    ));
                    assert(part * cluster_size == base + cluster_size);
                    assert forall|b: int| 0 <= b < base implies buffer@[b] == spec_file_byte(
                        contents,
                        self.ebpb,
                        cl,
                        skip as int,
                        b,
                    ) by {
                        assert(buf_snap[b] == spec_file_byte(contents, self.ebpb, cl, skip as int, b));
                        assert(buffer@[b] == buf_snap[b]);
                    }
                    assert(forall|b: int|
                        base <= b < base + cluster_size ==> buffer@[b] == spec_file_byte(
                            contents,
                            self.ebpb,
                            cl,
                            skip as int,
                            b,
                        ));
                    assert(forall|b: int|
                        0 <= b < part * cluster_size ==> buffer@[b] == spec_file_byte(
                            contents,
                            self.ebpb,
                            cl,
                            skip as int,
                            b,
                        ));
                }
            }
            let stepped = match chain.next(self, disk) {
                Ok(stepped) => stepped,
                Err(e) => { return Err(e) },
            };
            match stepped {
                Some(c) => {
                    proof {
                        if okf {
                            assert(skip + part <= cl.len());
                            assert(cl.skip(skip + part).len() > 0);
                            assert(skip + part < cl.len());
                            assert(cl.skip(skip + part)[0] == cl[skip + part]);
                            lemma_fat_read_ok_in_range(contents, self.ebpb, c as int);
                            assert(cl.skip(skip + part) =~= seq![cl[skip + part]] + cl.skip(
                                skip + part + 1,
                            ));
                            match spec_chain(
                                contents,
                                self.ebpb,
                                chain.entry(),
                                (fuel0 - (skip + part + 1)) as nat,
                            ) {
                                Ok(rest2) => {
                                    assert(seq![c] + rest2 == cl.skip(skip + part));
                                    assert(rest2 =~= (seq![c] + rest2).skip(1));
                                    assert(cl.skip(skip + part).skip(1) =~= cl.skip(
                                        skip + part + 1,
                                    ));
                                },
                                Err(_) => { assert(false); },
                            }
                        }
                    }
                    current = c;
                },
                None => {
                    proof {
                        if okf {
                            assert(cl.skip(skip + part) =~= Seq::<u32>::empty());
                            assert(cl.len() == skip + part);
                            assert(parts == part as int) by {
                                lemma_read_parts_bounds(
                                    read_start as int,
                                    file_size as int,
                                    read_length as int,
                                    cluster_size as int,
                                    part as int,
                                );
                            }
                        }
                    }
                    return Ok(part * cluster_size);
                },
            }
        }
    }
}

/// How many whole clusters one read call copies, counting from
/// `part`: it copies while the file has bytes left past the cursor and
/// the buffer has room for another whole cluster, exactly as the copy
/// loop decides.
pub open spec fn spec_read_parts(
    read_start: int,
    file_size: int,
    read_length: int,
    cs: int,
    part: int,
) -> int
    decreases read_length - part * cs,
{
    if cs <= 0 {
        part
    } else if read_start + part * cs < file_size && part * cs + cs <= read_length {
        proof {
            assert((part + 1) * cs == part * cs + cs) by (nonlinear_arith);
        }
        spec_read_parts(read_start, file_size, read_length, cs, part + 1)
    } else {
        part
    }
}

/// Byte `b` of a read that starts at cluster index `skip` of the chain
/// `clusters`: the byte inside the cluster holding it.
pub open spec fn spec_file_byte(
    contents: Seq<u8>,
    e: Ebpb,
    clusters: Seq<u32>,
    skip: int,
    b: int,
) -> u8 {
    spec_cluster_bytes(contents, e, clusters[skip + b / spec_bytes_in_cluster(e)])[b
        % spec_bytes_in_cluster(e)]
}

/// A reliable device owes the whole file read: aligned buffer, a chain
/// that walks to its end with every read owed, and enough clusters in
/// it to cover the skipped prefix and every copied cluster.
pub open spec fn file_read_ok(
    contents: Seq<u8>,
    e: Ebpb,
    first: u32,
    pos: int,
    file_size: int,
    len: int,
) -> bool {
    &&& spec_wf(e)
    &&& len % spec_bytes_in_cluster(e) == 0
    &&& folder_walk_ok(contents, e, FatEntry::Node(first), spec_chain_fuel(e))
    &&& match spec_chain(contents, e, FatEntry::Node(first), spec_chain_fuel(e)) {
        Ok(cl) => pos / spec_bytes_in_cluster(e) + spec_read_parts(
            pos,
            file_size,
            len,
            spec_bytes_in_cluster(e),
            0,
        ) <= cl.len(),
        Err(_) => false,
    }
}

/// A chain that reaches its end within `fuel` steps has at most `fuel`
/// clusters.
proof fn lemma_chain_len(contents: Seq<u8>, e: Ebpb, entry: FatEntry, fuel: nat)
    ensures
        spec_chain(contents, e, entry, fuel) matches Ok(cl) ==> cl.len() <= fuel,
    decreases fuel,
{
    match entry {
        FatEntry::Node(c) => {
            if c >= 2 && fuel > 0 {
                lemma_chain_len(contents, e, spec_fat_entry(contents, e, c as int), (fuel - 1) as nat);
            }
        },
        _ => {},
    }
}

/// Counting never goes backwards: the copy count from `part` is at
/// least `part`.
pub proof fn lemma_read_parts_bounds(read_start: int, file_size: int, read_length: int, cs: int, part: int)
    ensures
        spec_read_parts(read_start, file_size, read_length, cs, part) >= part,
    decreases read_length - part * cs,
{
    if cs > 0 && read_start + part * cs < file_size && part * cs + cs <= read_length {
        assert((part + 1) * cs == part * cs + cs) by (nonlinear_arith);
        lemma_read_parts_bounds(read_start, file_size, read_length, cs, part + 1);
    }
}

/// The copy never outgrows the buffer: the count times the cluster
/// size stays within the buffer length it started from.
pub proof fn lemma_read_parts_upper(
    read_start: int,
    file_size: int,
    read_length: int,
    cs: int,
    part: int,
)
    requires
        cs > 0,
        part * cs <= read_length,
    ensures
        spec_read_parts(read_start, file_size, read_length, cs, part) * cs <= read_length,
    decreases read_length - part * cs,
{
    if read_start + part * cs < file_size && part * cs + cs <= read_length {
        assert((part + 1) * cs == part * cs + cs) by (nonlinear_arith);
        lemma_read_parts_upper(read_start, file_size, read_length, cs, part + 1);
    }
}

/// While the copy loop's condition holds at `part`, the count is past
/// `part`.
proof fn lemma_read_parts_step(read_start: int, file_size: int, read_length: int, cs: int, part: int)
    requires
        cs > 0,
        read_start + part * cs < file_size,
        part * cs + cs <= read_length,
    ensures
        spec_read_parts(read_start, file_size, read_length, cs, part) >= part + 1,
{
    assert((part + 1) * cs == part * cs + cs) by (nonlinear_arith);
    lemma_read_parts_bounds(read_start, file_size, read_length, cs, part + 1);
}

/// Every cluster of a chain that walks with all its reads owed has its
/// own data read owed, and is a data cluster number.
proof fn lemma_chain_cluster_ok(contents: Seq<u8>, e: Ebpb, entry: FatEntry, fuel: nat, i: int)
    requires
        folder_walk_ok(contents, e, entry, fuel),
        match spec_chain(contents, e, entry, fuel) {
            Ok(cl) => 0 <= i < cl.len(),
            Err(_) => false,
        },
    ensures
        match spec_chain(contents, e, entry, fuel) {
            Ok(cl) => cluster_read_ok(contents, e, cl[i]) && cl[i] >= 2,
            Err(_) => true,
        },
    decreases fuel,
{
    match entry {
        FatEntry::Node(c) => {
            let next = spec_fat_entry(contents, e, c as int);
            if i > 0 {
                lemma_chain_cluster_ok(contents, e, next, (fuel - 1) as nat, i - 1);
                match spec_chain(contents, e, next, (fuel - 1) as nat) {
                    Ok(rest) => {
                        assert((seq![c] + rest)[i] == rest[i - 1]);
                    },
                    Err(_) => {},
                }
            }
        },
        _ => {},
    }
}

/// The shape of a chain the walker yields in full: consecutive
/// clusters are linked by their FAT entries, and the last cluster's
/// entry ends the chain.
pub proof fn lemma_chain_structure(contents: Seq<u8>, e: Ebpb, entry: FatEntry, fuel: nat)
    ensures
        match spec_chain(contents, e, entry, fuel) {
            Ok(cl) => {
                &&& (cl.len() == 0 ==> entry is End)
                &&& (cl.len() > 0 ==> entry == FatEntry::Node(cl[0]))
                &&& (forall|i: int|
                    0 <= i < cl.len() - 1 ==> spec_fat_entry(contents, e, cl[i] as int)
                        == FatEntry::Node(cl[i + 1]))
                &&& (cl.len() > 0 ==> spec_fat_entry(contents, e, cl[cl.len() - 1] as int) is End)
            },
            Err(_) => true,
        },
    decreases fuel,
{
    match entry {
        FatEntry::Node(c) => {
            if c >= 2 && fuel > 0 {
                let next = spec_fat_entry(contents, e, c as int);
                lemma_chain_structure(contents, e, next, (fuel - 1) as nat);
                match spec_chain(contents, e, next, (fuel - 1) as nat) {
                    Ok(rest) => {
                        let cl = seq![c] + rest;
                        assert(cl[0] == c);
                        if rest.len() > 0 {
                            assert(next == FatEntry::Node(rest[0]));
                            assert forall|i: int|
                                0 <= i < cl.len() - 1 implies spec_fat_entry(
                                contents,
                                e,
                                cl[i] as int,
                            ) == FatEntry::Node(cl[i + 1]) by {
                                if i == 0 {
                                    assert(cl[1] == rest[0]);
                                } else {
                                    assert(cl[i] == rest[i - 1]);
                                    assert(cl[i + 1] == rest[i]);
                                }
                            }
                            assert(cl[cl.len() - 1] == rest[rest.len() - 1]);
                        }
                    },
                    Err(_) => {},
                }
            }
        },
        _ => {},
    }
}

/// A cluster of a yielded chain whose own FAT entry ends the chain is
/// the chain's last element: the walker yields it and then stops.
pub proof fn lemma_end_is_last(contents: Seq<u8>, e: Ebpb, entry: FatEntry, fuel: nat, i: int)
    requires
        match spec_chain(contents, e, entry, fuel) {
            Ok(cl) => 0 <= i < cl.len() && spec_fat_entry(contents, e, cl[i] as int) is End,
            Err(_) => false,
        },
    ensures
        match spec_chain(contents, e, entry, fuel) {
            Ok(cl) => i == cl.len() - 1,
            Err(_) => true,
        },
{
    lemma_chain_structure(contents, e, entry, fuel);
}

/// A step onto a cluster marked bad surfaces the bad-block condition
/// as a failure of its own, never as an ordinary end of the chain.
pub proof fn lemma_bad_block_surfaces(contents: Seq<u8>, e: Ebpb, c: u32, fuel: nat)
    requires
        c >= 2,
        fuel > 0,
        spec_fat_entry(contents, e, c as int) == FatEntry::BadBlock,
    ensures
        spec_chain(contents, e, FatEntry::Node(c), fuel) == Err::<Seq<u32>, FsError>(
            FsError::BadBlock,
        ),
{
    assert(spec_chain(contents, e, FatEntry::BadBlock, (fuel - 1) as nat) == Err::<
        Seq<u32>,
        FsError,
    >(FsError::BadBlock));
}

/// The segment views of a split path.
pub open spec fn seg_views(path: Seq<Vec<char>>) -> Seq<Seq<char>> {
    path.map_values(|s: Vec<char>| s@)
}

/// Index of the first entry of `dirs` named `name`, if any.
fn find_entry(dirs: &Vec<Directory>, name: &Vec<char>) -> (r: Option<usize>)
    ensures
        match r {
            Some(j) => j < dirs@.len() && spec_first_match(dir_views(dirs@), name@) == j,
            None => spec_first_match(dir_views(dirs@), name@) == -1,
        },
{
    let mut j: usize = 0;
    while j < dirs.len()
        invariant
            j <= dirs@.len(),
            forall|k: int| 0 <= k < j ==> dir_views(dirs@)[k].name != name@,
        decreases dirs@.len() - j,
    {
        if crate::text::chars_eq(dirs[j].name_chars(), name) {
            proof {
                lemma_first_match_at(dir_views(dirs@), name@, j as int);
            }
            return Some(j);
        }
        j += 1;
    }
    proof {
        lemma_first_match_none(dir_views(dirs@), name@);
    }
    None
}

} // verus!
