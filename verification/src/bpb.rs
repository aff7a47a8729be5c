//! BIOS Parameter Block and its FAT32 extension, decoded from the boot
//! sector.
//!
//! The on-disk layout is dictated by the FAT32 format: field order,
//! widths and byte offsets are fixed, all integers little-endian. The
//! decoder reads every field at its fixed offset instead of
//! reinterpreting memory, so the record is exactly as portable as the
//! format itself.

use vstd::prelude::*;

verus! {

/// The 16-bit little-endian integer at byte offset `off`.
pub open spec fn spec_le16(s: Seq<u8>, off: int) -> u16 {
    (s[off] as u16) | ((s[off + 1] as u16) << 8)
}

/// The 32-bit little-endian integer at byte offset `off`.
pub open spec fn spec_le32(s: Seq<u8>, off: int) -> u32 {
    (s[off] as u32) | ((s[off + 1] as u32) << 8) | ((s[off + 2] as u32) << 16) | ((s[off
        + 3] as u32) << 24)
}

/// Read the 16-bit little-endian integer at `off`.
pub fn read_le16(bytes: &Vec<u8>, off: usize) -> (r: u16)
    requires
        off + 2 <= bytes.len(),
    ensures
        r == spec_le16(bytes@, off as int),
{
    (bytes[off] as u16) | ((bytes[off + 1] as u16) << 8)
}

/// Read the 32-bit little-endian integer at `off`.
pub fn read_le32(bytes: &Vec<u8>, off: usize) -> (r: u32)
    requires
        off + 4 <= bytes.len(),
    ensures
        r == spec_le32(bytes@, off as int),
{
    (bytes[off] as u32) | ((bytes[off + 1] as u32) << 8) | ((bytes[off + 2] as u32) << 16) | ((
    bytes[off + 3] as u32) << 24)
}

/// Copy `N` raw bytes starting at `off` into a fixed-size field.
pub(crate) fn copy_bytes<const N: usize>(bytes: &Vec<u8>, off: usize) -> (r: [u8; N])
    requires
        off + N <= bytes.len(),
    ensures
        r@ == bytes@.subrange(off as int, off + N),
{
    let mut r: [u8; N] = [0u8; N];
    let mut i: usize = 0;
    while i < N
        invariant
            i <= N,
            off + N <= bytes.len(),
            r@.len() == N,
            forall|j: int| 0 <= j < i ==> r@[j] == bytes@[off + j],
        decreases N - i,
    {
        r[i] = bytes[off + i];
        i += 1;
    }
    assert(r@ =~= bytes@.subrange(off as int, off + N));
    r
}

/// BIOS Parameter Block: the common head of every FAT boot sector.
#[derive(Debug, Clone, Copy)]
pub struct Bpb {
    /// Jump instruction over the parameter block.
    pub bootjmp: [u8; 3],
    /// Identifier of the formatting system.
    pub oem_identifier: [u8; 8],
    /// Bytes in one sector; zero makes the volume unusable.
    pub bytes_per_sector: u16,
    /// Sectors in one cluster; zero makes the volume unusable.
    pub sectors_per_cluster: u8,
    /// Sectors before the first FAT.
    pub reserved_sectors_count: u16,
    /// Number of FATs.
    pub table_count: u8,
    /// Root directory entries (zero on FAT32).
    pub root_entry_count: u16,
    /// Total sectors when they fit in 16 bits.
    pub total_sectors: u16,
    /// Media descriptor.
    pub media_descriptor_type: u8,
    /// Sectors per FAT when they fit in 16 bits (zero on FAT32).
    pub sectors_per_fat: u16,
    /// Sectors per track, for legacy geometry.
    pub sectors_per_track: u16,
    /// Heads, for legacy geometry.
    pub head_size_count: u16,
    /// Sectors before this volume.
    pub hidden_sectors_count: u32,
    /// Total sectors of the volume, 32-bit field.
    pub total_sectors_large: u32,
}

/// Extended boot record: the FAT32 fields that follow the [`Bpb`].
#[derive(Debug, Clone, Copy)]
pub struct Ebpb {
    /// The common head.
    pub bpb: Bpb,
    /// Sectors per FAT, 32-bit field.
    pub sectors_per_fat: u32,
    /// FAT mirroring flags.
    pub flags: u16,
    /// Format version.
    pub version_number: u16,
    /// First cluster of the root directory.
    pub root_dir_cluster: u32,
    /// Sector of the filesystem information block.
    pub fsinfo_sector: u16,
    /// Sector of the boot-record backup.
    pub backup_mbr_sector: u16,
    /// Reserved bytes.
    pub reserved: [u8; 12],
    /// BIOS drive number.
    pub drive_number: u8,
    /// Reserved flags.
    pub flags_nt: u8,
    /// Extended-record signature.
    pub signature: u8,
    /// Volume serial number.
    pub volume_id: u32,
    /// Volume label, space-padded.
    pub volume_label: [u8; 11],
    /// Filesystem type string, space-padded.
    pub system_identifier: [u8; 8],
}

/// Whether `e` holds exactly the fields stored at their fixed offsets
/// in the boot-sector bytes `s`.
pub open spec fn ebpb_matches(e: Ebpb, s: Seq<u8>) -> bool {
    &&& e.bpb.bootjmp@ == s.subrange(0, 3)
    &&& e.bpb.oem_identifier@ == s.subrange(3, 11)
    &&& e.bpb.bytes_per_sector == spec_le16(s, 11)
    &&& e.bpb.sectors_per_cluster == s[13]
    &&& e.bpb.reserved_sectors_count == spec_le16(s, 14)
    &&& e.bpb.table_count == s[16]
    &&& e.bpb.root_entry_count == spec_le16(s, 17)
    &&& e.bpb.total_sectors == spec_le16(s, 19)
    &&& e.bpb.media_descriptor_type == s[21]
    &&& e.bpb.sectors_per_fat == spec_le16(s, 22)
    &&& e.bpb.sectors_per_track == spec_le16(s, 24)
    &&& e.bpb.head_size_count == spec_le16(s, 26)
    &&& e.bpb.hidden_sectors_count == spec_le32(s, 28)
    &&& e.bpb.total_sectors_large == spec_le32(s, 32)
    &&& e.sectors_per_fat == spec_le32(s, 36)
    &&& e.flags == spec_le16(s, 40)
    &&& e.version_number == spec_le16(s, 42)
    &&& e.root_dir_cluster == spec_le32(s, 44)
    &&& e.fsinfo_sector == spec_le16(s, 48)
    &&& e.backup_mbr_sector == spec_le16(s, 50)
    &&& e.reserved@ == s.subrange(52, 64)
    &&& e.drive_number == s[64]
    &&& e.flags_nt == s[65]
    &&& e.signature == s[66]
    &&& e.volume_id == spec_le32(s, 67)
    &&& e.volume_label@ == s.subrange(71, 82)
    &&& e.system_identifier@ == s.subrange(82, 90)
}

impl Ebpb {
    /// Decode a boot sector. Every field comes from its fixed offset;
    /// nothing is validated here (the volume layer rejects unusable
    /// geometry).
    pub fn parse(bytes: &Vec<u8>) -> (r: Ebpb)
        requires
            bytes@.len() >= 90,
        ensures
            ebpb_matches(r, bytes@),
    {
        let bpb = Bpb {
            bootjmp: copy_bytes::<3>(bytes, 0),
            oem_identifier: copy_bytes::<8>(bytes, 3),
            bytes_per_sector: read_le16(bytes, 11),
            sectors_per_cluster: bytes[13],
            reserved_sectors_count: read_le16(bytes, 14),
            table_count: bytes[16],
            root_entry_count: read_le16(bytes, 17),
            total_sectors: read_le16(bytes, 19),
            media_descriptor_type: bytes[21],
            sectors_per_fat: read_le16(bytes, 22),
            sectors_per_track: read_le16(bytes, 24),
            head_size_count: read_le16(bytes, 26),
            hidden_sectors_count: read_le32(bytes, 28),
            total_sectors_large: read_le32(bytes, 32),
        };
        Ebpb {
            bpb,
            sectors_per_fat: read_le32(bytes, 36),
            flags: read_le16(bytes, 40),
            version_number: read_le16(bytes, 42),
            root_dir_cluster: read_le32(bytes, 44),
            fsinfo_sector: read_le16(bytes, 48),
            backup_mbr_sector: read_le16(bytes, 50),
            reserved: copy_bytes::<12>(bytes, 52),
            drive_number: bytes[64],
            flags_nt: bytes[65],
            signature: bytes[66],
            volume_id: read_le32(bytes, 67),
            volume_label: copy_bytes::<11>(bytes, 71),
            system_identifier: copy_bytes::<8>(bytes, 82),
        }
    }
}

} // verus!
