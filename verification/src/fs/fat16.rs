//! A memory-resident file store in the shape of FAT16: a cluster allocation
//! table, a root directory of 512 fixed-layout entries and a data region of
//! 512-byte clusters. Files occupy a single cluster and are never chained.

use crate::vga::{
    clear, draw_rect, print_bytes, print_text, text, write_letters, Cell, Screen,
    cleared, filled_rect, lettered, printed,
};
use vstd::prelude::*;

verus! {

/// Address at which the store is resident on the machine.
pub const RAMDISK_BASE: u32 = 0x100000;

/// Address of the cluster allocation table.
pub const FAT_TABLE_START: u32 = 0x100200;

/// Address of the root directory.
pub const ROOT_DIR_START: u32 = 0x108200;

/// Address of the data region.
pub const DATA_REGION_START: u32 = 0x10C200;

/// Number of slots in the root directory.
pub const ROOT_ENTRIES: usize = 512;

/// Size of one directory entry in bytes.
pub const ENTRY_SIZE: usize = 32;

/// Size of the root directory in bytes.
pub const ROOT_BYTES: usize = 16384;

/// Number of markers in the cluster allocation table, the two reserved ones
/// included.
pub const FAT_ENTRIES: usize = 4096;

/// Size of one cluster in bytes.
pub const CLUSTER_SIZE: usize = 512;

/// Size of the data region in bytes: clusters 2 to 4095.
pub const DATA_BYTES: usize = 2096128;

/// Allocation marker of a free cluster.
pub const FAT_FREE: u16 = 0x0000;

/// Allocation marker of the last cluster of a file.
pub const FAT_END: u16 = 0xFFFF;

/// Marker kept in the first reserved table position.
pub const FAT_MEDIA: u16 = 0xFFF8;

/// First name byte of a slot that was never used.
pub const SLOT_UNUSED: u8 = 0x00;

/// First name byte of a slot whose file was deleted.
pub const SLOT_DELETED: u8 = 0xE5;

/// The archive attribute, set on every file that the store writes.
pub const ATTR_ARCHIVE: u8 = 0x20;

/// How a file store operation ended.
#[derive(Debug, Clone, Copy, PartialEq, Eq, Structural)]
pub enum FsStatus {
    /// The operation did all of its work.
    Done,
    /// No directory slot is free; nothing was written.
    SlotExhausted,
    /// No cluster is free; nothing was written.
    ClusterExhausted,
    /// No directory entry has the name; nothing was read.
    NotFound,
    /// The file is longer than what was handed out; the content was cut.
    Truncated,
    /// The payload is longer than one cluster; it was written all the same
    /// and ran over the storage of the clusters that follow.
    Overrun,
}

/// One slot of the root directory.
#[derive(Debug, Clone, Copy, PartialEq, Eq)]
pub struct Fat16DirEntry {
    /// File name, padded with spaces.
    pub name: [u8; 8],
    /// File name extension.
    pub ext: [u8; 3],
    /// Attribute bits; only the archive bit is meaningful.
    pub attr: u8,
    pub reserved: u8,
    pub creation_time_ms: u8,
    pub creation_time: u16,
    pub creation_date: u16,
    pub last_access_date: u16,
    /// High half of the first cluster; always 0 here.
    pub cluster_high: u16,
    pub m_time: u16,
    pub m_date: u16,
    /// Index of the file's cluster in the allocation table.
    pub first_cluster: u16,
    /// Length of the file in bytes.
    pub file_size: u32,
}

/// A directory entry as a mathematical value.
pub struct DirEntryModel {
    pub name: Seq<u8>,
    pub ext: Seq<u8>,
    pub attr: u8,
    pub reserved: u8,
    pub creation_time_ms: u8,
    pub creation_time: u16,
    pub creation_date: u16,
    pub last_access_date: u16,
    pub cluster_high: u16,
    pub m_time: u16,
    pub m_date: u16,
    pub first_cluster: u16,
    pub file_size: u32,
}

impl View for Fat16DirEntry {
    type V = DirEntryModel;

    open spec fn view(&self) -> DirEntryModel {
        DirEntryModel {
            name: self.name@,
            ext: self.ext@,
            attr: self.attr,
            reserved: self.reserved,
            creation_time_ms: self.creation_time_ms,
            creation_time: self.creation_time,
            creation_date: self.creation_date,
            last_access_date: self.last_access_date,
            cluster_high: self.cluster_high,
            m_time: self.m_time,
            m_date: self.m_date,
            first_cluster: self.first_cluster,
            file_size: self.file_size,
        }
    }
}

/// The 16-bit value stored little-endian in two bytes.
pub open spec fn le16(lo: u8, hi: u8) -> u16 {
    (lo + 256 * hi) as u16
}

/// The 32-bit value stored little-endian in four bytes.
pub open spec fn le32(b0: u8, b1: u8, b2: u8, b3: u8) -> u32 {
    (b0 + 256 * b1 + 65536 * b2 + 16777216 * b3) as u32
}

/// Byte `i` (0 or 1) of the little-endian form of a 16-bit value.
pub open spec fn le16_byte(v: u16, i: int) -> u8 {
    if i == 0 {
        (v % 256) as u8
    } else {
        (v / 256) as u8
    }
}

/// Byte `i` (0 to 3) of the little-endian form of a 32-bit value.
pub open spec fn le32_byte(v: u32, i: int) -> u8 {
    if i == 0 {
        (v % 256) as u8
    } else if i == 1 {
        ((v / 256) % 256) as u8
    } else if i == 2 {
        ((v / 65536) % 256) as u8
    } else {
        (v / 16777216) as u8
    }
}

impl DirEntryModel {
    /// Holds when the name has 8 bytes and the extension 3.
    pub open spec fn wf(self) -> bool {
        self.name.len() == 8 && self.ext.len() == 3
    }

    /// Holds when the slot is neither unused nor deleted.
    pub open spec fn occupied(self) -> bool {
        self.name[0] != SLOT_UNUSED && self.name[0] != SLOT_DELETED
    }

    /// Byte `i` of the entry's 32-byte layout.
    pub open spec fn byte(self, i: int) -> u8 {
        if i < 8 {
            self.name[i]
        } else if i < 11 {
            self.ext[i - 8]
        } else if i == 11 {
            self.attr
        } else if i == 12 {
            self.reserved
        } else if i == 13 {
            self.creation_time_ms
        } else if i < 16 {
            le16_byte(self.creation_time, i - 14)
        } else if i < 18 {
            le16_byte(self.creation_date, i - 16)
        } else if i < 20 {
            le16_byte(self.last_access_date, i - 18)
        } else if i < 22 {
            le16_byte(self.cluster_high, i - 20)
        } else if i < 24 {
            le16_byte(self.m_time, i - 22)
        } else if i < 26 {
            le16_byte(self.m_date, i - 24)
        } else if i < 28 {
            le16_byte(self.first_cluster, i - 26)
        } else {
            le32_byte(self.file_size, i - 28)
        }
    }

    /// The entry's 32-byte layout.
    pub open spec fn encode(self) -> Seq<u8> {
        Seq::new(32, |i: int| self.byte(i))
    }

    /// The entry that 32 bytes stand for.
    pub open spec fn decode(bytes: Seq<u8>) -> DirEntryModel {
        DirEntryModel {
            name: bytes.subrange(0, 8),
            ext: bytes.subrange(8, 11),
            attr: bytes[11],
            reserved: bytes[12],
            creation_time_ms: bytes[13],
            creation_time: le16(bytes[14], bytes[15]),
            creation_date: le16(bytes[16], bytes[17]),
            last_access_date: le16(bytes[18], bytes[19]),
            cluster_high: le16(bytes[20], bytes[21]),
            m_time: le16(bytes[22], bytes[23]),
            m_date: le16(bytes[24], bytes[25]),
            first_cluster: le16(bytes[26], bytes[27]),
            file_size: le32(bytes[28], bytes[29], bytes[30], bytes[31]),
        }
    }
}

/// The two bytes of a 16-bit value give the value back, and the value made
/// of two bytes gives the bytes back.
pub proof fn lemma_le16(v: u16, lo: u8, hi: u8)
    ensures
        le16(le16_byte(v, 0), le16_byte(v, 1)) == v,
        le16_byte(le16(lo, hi), 0) == lo,
        le16_byte(le16(lo, hi), 1) == hi,
{
}

/// The four bytes of a 32-bit value give the value back.
pub proof fn lemma_le32_value(v: u32)
    ensures
        le32(le32_byte(v, 0), le32_byte(v, 1), le32_byte(v, 2), le32_byte(v, 3)) == v,
{
    let a = v / 256;
    let b = a / 256;
    let c = b / 256;
    assert(v == 256 * a + v % 256);
    assert(a == 256 * b + a % 256);
    assert(b == 256 * c + b % 256);
    assert(b == v / 65536);
    assert(c == v / 16777216);
    assert(c < 256);
}

/// The value made of four bytes gives the bytes back.
pub proof fn lemma_le32_bytes(b0: u8, b1: u8, b2: u8, b3: u8)
    ensures
        le32_byte(le32(b0, b1, b2, b3), 0) == b0,
        le32_byte(le32(b0, b1, b2, b3), 1) == b1,
        le32_byte(le32(b0, b1, b2, b3), 2) == b2,
        le32_byte(le32(b0, b1, b2, b3), 3) == b3,
{
    let x: int = b0 + 256 * b1 + 65536 * b2 + 16777216 * b3;
    let q1: int = b1 + 256 * b2 + 65536 * b3;
    let q2: int = b2 + 256 * b3;
    assert(x == 256 * q1 + b0);
    assert(x / 256 == q1 && x % 256 == b0);
    assert(q1 == 256 * q2 + b1);
    assert(q1 / 256 == q2 && q1 % 256 == b1);
    assert(x == 65536 * q2 + (b0 + 256 * b1));
    assert(x / 65536 == q2);
    assert(q2 % 256 == b2);
    assert(x == 16777216 * b3 + (b0 + 256 * b1 + 65536 * b2));
    assert(x / 16777216 == b3);
}

/// Decoding the layout of an entry gives the entry back.
pub proof fn lemma_decode_encode(e: DirEntryModel)
    requires
        e.wf(),
    ensures
        e.encode().len() == 32,
        DirEntryModel::decode(e.encode()) == e,
{
    let b = e.encode();
    let d = DirEntryModel::decode(b);
    assert(d.name =~= e.name);
    assert(d.ext =~= e.ext);
    lemma_le16(e.creation_time, 0, 0);
    lemma_le16(e.creation_date, 0, 0);
    lemma_le16(e.last_access_date, 0, 0);
    lemma_le16(e.cluster_high, 0, 0);
    lemma_le16(e.m_time, 0, 0);
    lemma_le16(e.m_date, 0, 0);
    lemma_le16(e.first_cluster, 0, 0);
    lemma_le32_value(e.file_size);
}

/// Encoding the entry that 32 bytes stand for gives the bytes back.
pub proof fn lemma_encode_decode(bytes: Seq<u8>)
    requires
        bytes.len() == 32,
    ensures
        DirEntryModel::decode(bytes).wf(),
        DirEntryModel::decode(bytes).encode() == bytes,
{
    let e = DirEntryModel::decode(bytes);
    lemma_le16(0, bytes[14], bytes[15]);
    lemma_le16(0, bytes[16], bytes[17]);
    lemma_le16(0, bytes[18], bytes[19]);
    lemma_le16(0, bytes[20], bytes[21]);
    lemma_le16(0, bytes[22], bytes[23]);
    lemma_le16(0, bytes[24], bytes[25]);
    lemma_le16(0, bytes[26], bytes[27]);
    lemma_le32_bytes(bytes[28], bytes[29], bytes[30], bytes[31]);
    assert forall|i: int| 0 <= i < 32 implies #[trigger] e.byte(i) == bytes[i] by {
        if i < 8 {
        } else if i < 11 {
        } else if i < 14 {
        } else if i < 16 {
        } else if i < 18 {
        } else if i < 20 {
        } else if i < 22 {
        } else if i < 24 {
        } else if i < 26 {
        } else if i < 28 {
        } else {
        }
    }
    assert(e.encode() =~= bytes);
}

impl Fat16DirEntry {
    /// An entry of zero bytes: the state of a slot that was never used.
    pub fn empty() -> (e: Fat16DirEntry)
        ensures
            e@ == DirEntryModel::decode(Seq::new(32, |i: int| 0u8)),
    {
        let e = Fat16DirEntry {
            name: [0u8; 8],
            ext: [0u8; 3],
            attr: 0,
            reserved: 0,
            creation_time_ms: 0,
            creation_time: 0,
            creation_date: 0,
            last_access_date: 0,
            cluster_high: 0,
            m_time: 0,
            m_date: 0,
            first_cluster: 0,
            file_size: 0,
        };
        proof {
            let d = DirEntryModel::decode(Seq::new(32, |i: int| 0u8));
            assert(e@.name =~= d.name);
            assert(e@.ext =~= d.ext);
        }
        e
    }

    /// The entry's 32-byte layout, fields in order, integers little-endian.
    pub fn to_bytes(&self) -> (bytes: [u8; 32])
        ensures
            bytes@ == self@.encode(),
    {
        let mut bytes: [u8; 32] = [0u8; 32];
        let mut k: usize = 0;
        while k < 8
            invariant
                k <= 8,
                forall|j: int| 0 <= j < k ==> bytes[j] == self.name[j],
            decreases 8 - k,
        {
            bytes[k] = self.name[k];
            k += 1;
        }
        bytes[8] = self.ext[0];
        bytes[9] = self.ext[1];
        bytes[10] = self.ext[2];
        bytes[11] = self.attr;
        bytes[12] = self.reserved;
        bytes[13] = self.creation_time_ms;
        bytes[14] = (self.creation_time % 256) as u8;
        bytes[15] = (self.creation_time / 256) as u8;
        bytes[16] = (self.creation_date % 256) as u8;
        bytes[17] = (self.creation_date / 256) as u8;
        bytes[18] = (self.last_access_date % 256) as u8;
        bytes[19] = (self.last_access_date / 256) as u8;
        bytes[20] = (self.cluster_high % 256) as u8;
        bytes[21] = (self.cluster_high / 256) as u8;
        bytes[22] = (self.m_time % 256) as u8;
        bytes[23] = (self.m_time / 256) as u8;
        bytes[24] = (self.m_date % 256) as u8;
        bytes[25] = (self.m_date / 256) as u8;
        bytes[26] = (self.first_cluster % 256) as u8;
        bytes[27] = (self.first_cluster / 256) as u8;
        bytes[28] = (self.file_size % 256) as u8;
        bytes[29] = ((self.file_size / 256) % 256) as u8;
        bytes[30] = ((self.file_size / 65536) % 256) as u8;
        bytes[31] = (self.file_size / 16777216) as u8;
        proof {
            let e = self@;
            assert forall|i: int| 0 <= i < 32 implies bytes@[i] == #[trigger] e.byte(i) by {
                if i < 8 {
                } else if i < 11 {
                } else if i < 14 {
                } else if i < 16 {
                } else if i < 18 {
                } else if i < 20 {
                } else if i < 22 {
                } else if i < 24 {
                } else if i < 26 {
                } else if i < 28 {
                } else {
                }
            }
            assert(bytes@ =~= e.encode());
        }
        bytes
    }

    /// The entry that the 32 bytes starting at `base` stand for, or `None`
    /// where fewer than 32 bytes follow `base`.
    pub fn from_bytes(bytes: &[u8], base: usize) -> (e: Option<Fat16DirEntry>)
        ensures
            e is Some <==> base + 32 <= bytes@.len(),
            e is Some ==> e->0@ == DirEntryModel::decode(bytes@.subrange(base as int, base + 32)),
    {
        if bytes.len() >= 32 && base <= bytes.len() - 32 {
            Some(Fat16DirEntry::decode_at(bytes, base))
        } else {
            None
        }
    }

    fn decode_at(bytes: &[u8], base: usize) -> (e: Fat16DirEntry)
        requires
            base + 32 <= bytes@.len(),
        ensures
            e@ == DirEntryModel::decode(bytes@.subrange(base as int, base + 32)),
    {
        let len: usize = bytes.len();
        let mut name: [u8; 8] = [0u8; 8];
        let mut k: usize = 0;
        while k < 8
            invariant
                k <= 8,
                base + 32 <= len,
                len == bytes@.len(),
                forall|j: int| 0 <= j < k ==> name[j] == bytes@[base + j],
            decreases 8 - k,
        {
            name[k] = bytes[base + k];
            k += 1;
        }
        let mut ext: [u8; 3] = [0u8; 3];
        ext[0] = bytes[base + 8];
        ext[1] = bytes[base + 9];
        ext[2] = bytes[base + 10];
        let e = Fat16DirEntry {
            name,
            ext,
            attr: bytes[base + 11],
            reserved: bytes[base + 12],
            creation_time_ms: bytes[base + 13],
            creation_time: read_le16(bytes[base + 14], bytes[base + 15]),
            creation_date: read_le16(bytes[base + 16], bytes[base + 17]),
            last_access_date: read_le16(bytes[base + 18], bytes[base + 19]),
            cluster_high: read_le16(bytes[base + 20], bytes[base + 21]),
            m_time: read_le16(bytes[base + 22], bytes[base + 23]),
            m_date: read_le16(bytes[base + 24], bytes[base + 25]),
            first_cluster: read_le16(bytes[base + 26], bytes[base + 27]),
            file_size: read_le32(
                bytes[base + 28],
                bytes[base + 29],
                bytes[base + 30],
                bytes[base + 31],
            ),
        };
        proof {
            let d = DirEntryModel::decode(bytes@.subrange(base as int, base + 32));
            assert(e@.name =~= d.name);
            assert(e@.ext =~= d.ext);
        }
        e
    }
}

/// The 16-bit value stored little-endian in two bytes.
pub fn read_le16(lo: u8, hi: u8) -> (v: u16)
    ensures
        v == le16(lo, hi),
{
    lo as u16 + 256 * (hi as u16)
}

/// The 32-bit value stored little-endian in four bytes.
pub fn read_le32(b0: u8, b1: u8, b2: u8, b3: u8) -> (v: u32)
    ensures
        v == le32(b0, b1, b2, b3),
{
    b0 as u32 + 256 * (b1 as u32) + 65536 * (b2 as u32) + 16777216 * (b3 as u32)
}

/// The file store as a mathematical value.
pub struct FsModel {
    /// The allocation markers, by cluster index.
    pub fat: Seq<u16>,
    /// The directory entries, by slot.
    pub dir: Seq<DirEntryModel>,
    /// The bytes of the data region.
    pub data: Seq<u8>,
}

/// Holds when `s` is the lowest slot that is unused or deleted.
pub open spec fn is_first_free_slot(dir: Seq<DirEntryModel>, s: int) -> bool {
    &&& 0 <= s < dir.len()
    &&& !dir[s].occupied()
    &&& forall|j: int| 0 <= j < s ==> (#[trigger] dir[j]).occupied()
}

/// Holds when `c` is the lowest cluster, from 2 on, whose marker is free.
pub open spec fn is_first_free_cluster(fat: Seq<u16>, c: int) -> bool {
    &&& 2 <= c < fat.len()
    &&& fat[c] == FAT_FREE
    &&& forall|j: int| 2 <= j < c ==> #[trigger] fat[j] != FAT_FREE
}

/// Holds when `s` is the lowest slot whose eight name bytes are `name`.
pub open spec fn is_first_match(dir: Seq<DirEntryModel>, name: Seq<u8>, s: int) -> bool {
    &&& 0 <= s < dir.len()
    &&& dir[s].name == name
    &&& forall|j: int| 0 <= j < s ==> (#[trigger] dir[j]).name != name
}

/// The lowest slot from `from` on that is unused or deleted, if there is
/// one.
pub open spec fn free_slot_from(dir: Seq<DirEntryModel>, from: int) -> Option<int>
    decreases dir.len() - from,
{
    if from < 0 || from >= dir.len() {
        None
    } else if !dir[from].occupied() {
        Some(from)
    } else {
        free_slot_from(dir, from + 1)
    }
}

/// The lowest cluster from `from` on whose marker is free, if there is one.
pub open spec fn free_cluster_from(fat: Seq<u16>, from: int) -> Option<int>
    decreases fat.len() - from,
{
    if from < 0 || from >= fat.len() {
        None
    } else if fat[from] == FAT_FREE {
        Some(from)
    } else {
        free_cluster_from(fat, from + 1)
    }
}

/// The lowest slot from `from` on whose eight name bytes are `name`, if
/// there is one.
pub open spec fn match_from(dir: Seq<DirEntryModel>, name: Seq<u8>, from: int) -> Option<int>
    decreases dir.len() - from,
{
    if from < 0 || from >= dir.len() {
        None
    } else if dir[from].name == name {
        Some(from)
    } else {
        match_from(dir, name, from + 1)
    }
}

/// The lowest free slot, if there is one.
pub open spec fn first_free_slot(dir: Seq<DirEntryModel>) -> Option<int> {
    free_slot_from(dir, 0)
}

/// The lowest free cluster past the two reserved ones, if there is one.
pub open spec fn first_free_cluster(fat: Seq<u16>) -> Option<int> {
    free_cluster_from(fat, 2)
}

/// The lowest slot with the given name, if there is one.
pub open spec fn first_match(dir: Seq<DirEntryModel>, name: Seq<u8>) -> Option<int> {
    match_from(dir, name, 0)
}

/// Offset in the data region of the first byte of a cluster.
pub open spec fn cluster_offset(cluster: int) -> int {
    (cluster - 2) * 512
}

/// The region after `bytes` are copied to offset `at`. Bytes that would fall
/// past the end of the region are not stored.
pub open spec fn overlay(region: Seq<u8>, at: int, bytes: Seq<u8>) -> Seq<u8> {
    Seq::new(
        region.len(),
        |k: int|
            if 0 <= k - at < bytes.len() {
                bytes[k - at]
            } else {
                region[k]
            },
    )
}

/// The extension given to every file: `TXT`.
pub open spec fn txt_extension() -> Seq<u8> {
    seq![0x54u8, 0x58u8, 0x54u8]
}

/// The entry that a slot holds after a file is written into it: name,
/// extension, attribute, cluster and size are set, the other fields stay.
pub open spec fn written_entry(before: DirEntryModel, name: Seq<u8>, cluster: u16, size: u32)
    -> DirEntryModel {
    DirEntryModel {
        name,
        ext: txt_extension(),
        attr: ATTR_ARCHIVE,
        first_cluster: cluster,
        file_size: size,
        ..before
    }
}

impl FsModel {
    /// Holds when the three regions have their sizes, the two reserved
    /// markers are in place, and every slot that is occupied or has content
    /// points at a cluster that ends a chain.
    pub open spec fn wf(self) -> bool {
        &&& self.fat.len() == FAT_ENTRIES
        &&& self.dir.len() == ROOT_ENTRIES
        &&& self.data.len() == DATA_BYTES
        &&& self.fat[0] == FAT_MEDIA
        &&& self.fat[1] == FAT_END
        &&& forall|s: int| 0 <= s < self.dir.len() ==> self.slot_ok(#[trigger] self.dir[s])
    }

    /// What [`FsModel::wf`] asks of one entry.
    pub open spec fn slot_ok(self, e: DirEntryModel) -> bool {
        &&& e.wf()
        &&& (e.occupied() || e.file_size > 0) ==> {
            &&& 2 <= e.first_cluster < FAT_ENTRIES
            &&& self.fat[e.first_cluster as int] == FAT_END
        }
    }

    /// A store in which nothing was written yet.
    pub open spec fn formatted() -> FsModel {
        FsModel {
            fat: Seq::new(
                FAT_ENTRIES as nat,
                |c: int|
                    if c == 0 {
                        FAT_MEDIA
                    } else if c == 1 {
                        FAT_END
                    } else {
                        FAT_FREE
                    },
            ),
            dir: Seq::new(
                ROOT_ENTRIES as nat,
                |s: int| DirEntryModel::decode(Seq::new(32, |i: int| 0u8)),
            ),
            data: Seq::new(DATA_BYTES as nat, |k: int| 0u8),
        }
    }

    /// Holds when some slot is unused or deleted.
    pub open spec fn has_free_slot(self) -> bool {
        first_free_slot(self.dir) is Some
    }

    /// Holds when some cluster from 2 on is free.
    pub open spec fn has_free_cluster(self) -> bool {
        first_free_cluster(self.fat) is Some
    }

    /// Holds when some slot has the given eight name bytes.
    pub open spec fn has_name(self, name: Seq<u8>) -> bool {
        first_match(self.dir, name) is Some
    }

    /// The store after a file is written into slot `s` and cluster `c`: the
    /// cluster ends a chain, the payload lies at the cluster's place in the
    /// data region, and the slot holds the new entry.
    pub open spec fn written(self, s: int, c: int, name: Seq<u8>, data: Seq<u8>) -> FsModel {
        FsModel {
            fat: self.fat.update(c, FAT_END),
            dir: self.dir.update(
                s,
                written_entry(self.dir[s], name, c as u16, data.len() as u32),
            ),
            data: overlay(self.data, cluster_offset(c), data),
        }
    }

    /// Writes a file into the first free slot and the first free cluster.
    ///
    /// With no free slot, or no free cluster, the store stays as it is. A
    /// payload longer than one cluster is stored all the same, over the
    /// clusters that follow, and reported as an overrun.
    pub open spec fn store(self, name: Seq<u8>, data: Seq<u8>) -> (FsModel, FsStatus) {
        match first_free_slot(self.dir) {
            None => (self, FsStatus::SlotExhausted),
            Some(s) => match first_free_cluster(self.fat) {
                None => (self, FsStatus::ClusterExhausted),
                Some(c) => (
                    self.written(s, c, name, data),
                    if data.len() > CLUSTER_SIZE {
                        FsStatus::Overrun
                    } else {
                        FsStatus::Done
                    },
                ),
            },
        }
    }

    /// Creates an empty file.
    pub open spec fn create(self, name: Seq<u8>) -> (FsModel, FsStatus) {
        self.store(name, Seq::empty())
    }

    /// Saves a payload as a new file. An empty payload gives an empty file,
    /// as [`FsModel::create`] does.
    pub open spec fn save(self, name: Seq<u8>, data: Seq<u8>) -> (FsModel, FsStatus) {
        self.store(name, data)
    }

    /// Saves the text captured at the input bar as a new file. Where nothing
    /// was captured, nothing is written.
    pub open spec fn save_input(self, name: Seq<u8>, input: Seq<u8>) -> (FsModel, FsStatus) {
        if input.len() == 0 {
            (self, FsStatus::Done)
        } else {
            self.save(name, input)
        }
    }

    /// The content of the file that entry `e` describes, cut to `capacity`
    /// bytes and to what the data region holds. An entry that points at no
    /// data cluster has no content.
    pub open spec fn content(self, e: DirEntryModel, capacity: int) -> Seq<u8> {
        let start = cluster_offset(e.first_cluster as int);
        let room = self.data.len() - start;
        let wanted = if e.file_size <= capacity {
            e.file_size as int
        } else {
            capacity
        };
        let count = if wanted <= room {
            wanted
        } else {
            room
        };
        if e.file_size == 0 || e.first_cluster < 2 || count <= 0 {
            Seq::empty()
        } else {
            self.data.subrange(start, start + count)
        }
    }

    /// Reads the file in the first slot that has the given name.
    pub open spec fn load(self, name: Seq<u8>, capacity: int) -> (Seq<u8>, FsStatus) {
        match first_match(self.dir, name) {
            None => (Seq::empty(), FsStatus::NotFound),
            Some(s) => (
                self.content(self.dir[s], capacity),
                if self.content(self.dir[s], capacity).len() < self.dir[s].file_size {
                    FsStatus::Truncated
                } else {
                    FsStatus::Done
                },
            ),
        }
    }

    /// The occupied entries among the first `limit` slots, in slot order.
    pub open spec fn list(self, limit: int) -> Seq<DirEntryModel> {
        listing(
            self.dir,
            if limit <= self.dir.len() {
                limit
            } else {
                self.dir.len() as int
            },
        )
    }
}

/// The occupied entries among the first `n` slots, in slot order.
pub open spec fn listing(dir: Seq<DirEntryModel>, n: int) -> Seq<DirEntryModel>
    decreases n,
{
    if n <= 0 {
        Seq::empty()
    } else if dir[n - 1].occupied() {
        listing(dir, n - 1).push(dir[n - 1])
    } else {
        listing(dir, n - 1)
    }
}

/// What [`free_slot_from`] finds is the lowest free slot from `from` on, and
/// where it finds none, every slot from there on is occupied.
pub proof fn lemma_free_slot_from(dir: Seq<DirEntryModel>, from: int)
    requires
        0 <= from <= dir.len(),
    ensures
        match free_slot_from(dir, from) {
            Some(s) => {
                &&& from <= s < dir.len()
                &&& !dir[s].occupied()
                &&& forall|j: int| from <= j < s ==> (#[trigger] dir[j]).occupied()
            },
            None => forall|j: int| from <= j < dir.len() ==> (#[trigger] dir[j]).occupied(),
        },
    decreases dir.len() - from,
{
    if from < dir.len() && dir[from].occupied() {
        lemma_free_slot_from(dir, from + 1);
    }
}

/// What [`free_cluster_from`] finds is the lowest free cluster from `from`
/// on, and where it finds none, no cluster from there on is free.
pub proof fn lemma_free_cluster_from(fat: Seq<u16>, from: int)
    requires
        0 <= from <= fat.len(),
    ensures
        match free_cluster_from(fat, from) {
            Some(c) => {
                &&& from <= c < fat.len()
                &&& fat[c] == FAT_FREE
                &&& forall|j: int| from <= j < c ==> #[trigger] fat[j] != FAT_FREE
            },
            None => forall|j: int| from <= j < fat.len() ==> #[trigger] fat[j] != FAT_FREE,
        },
    decreases fat.len() - from,
{
    if from < fat.len() && fat[from] != FAT_FREE {
        lemma_free_cluster_from(fat, from + 1);
    }
}

/// What [`match_from`] finds is the lowest slot from `from` on with the
/// name, and where it finds none, no slot from there on has the name.
pub proof fn lemma_match_from(dir: Seq<DirEntryModel>, name: Seq<u8>, from: int)
    requires
        0 <= from <= dir.len(),
    ensures
        match match_from(dir, name, from) {
            Some(s) => {
                &&& from <= s < dir.len()
                &&& dir[s].name == name
                &&& forall|j: int| from <= j < s ==> (#[trigger] dir[j]).name != name
            },
            None => forall|j: int| from <= j < dir.len() ==> (#[trigger] dir[j]).name != name,
        },
    decreases dir.len() - from,
{
    if from < dir.len() && dir[from].name != name {
        lemma_match_from(dir, name, from + 1);
    }
}

/// The first free slot is the one slot that is free with every slot before
/// it occupied.
pub proof fn lemma_first_free_slot(dir: Seq<DirEntryModel>, s: int)
    ensures
        first_free_slot(dir) == Some(s) <==> is_first_free_slot(dir, s),
{
    lemma_free_slot_from(dir, 0);
    if is_first_free_slot(dir, s) {
        let t = first_free_slot(dir)->0;
        if t < s {
            assert(dir[t].occupied());
        } else if s < t {
            assert(dir[s].occupied());
        }
    }
}

/// The first free cluster is the one cluster from 2 on that is free with
/// every cluster from 2 up to it in use.
pub proof fn lemma_first_free_cluster(fat: Seq<u16>, c: int)
    requires
        fat.len() >= 2,
    ensures
        first_free_cluster(fat) == Some(c) <==> is_first_free_cluster(fat, c),
{
    lemma_free_cluster_from(fat, 2);
    if is_first_free_cluster(fat, c) {
        let t = first_free_cluster(fat)->0;
        if t < c {
            assert(fat[t] != FAT_FREE);
        } else if c < t {
            assert(fat[c] != FAT_FREE);
        }
    }
}

/// The first match is the one slot that has the name with no slot before it
/// having it.
pub proof fn lemma_first_match(dir: Seq<DirEntryModel>, name: Seq<u8>, s: int)
    ensures
        first_match(dir, name) == Some(s) <==> is_first_match(dir, name, s),
{
    lemma_match_from(dir, name, 0);
    if is_first_match(dir, name, s) {
        let t = first_match(dir, name)->0;
        if t < s {
            assert(dir[t].name != name);
        } else if s < t {
            assert(dir[s].name != name);
        }
    }
}

/// A listing is the directory's first slots with the unused and the deleted
/// ones taken out.
pub proof fn lemma_listing_is_filter(dir: Seq<DirEntryModel>, n: int)
    requires
        0 <= n <= dir.len(),
    ensures
        listing(dir, n) == dir.take(n).filter(|e: DirEntryModel| e.occupied()),
    decreases n,
{
    reveal(Seq::filter);
    if n > 0 {
        lemma_listing_is_filter(dir, n - 1);
        assert(dir.take(n).drop_last() =~= dir.take(n - 1));
    } else {
        assert(dir.take(0).filter(|e: DirEntryModel| e.occupied()) =~= Seq::<
            DirEntryModel,
        >::empty());
    }
}

/// The resident file store: allocation table, root directory and data
/// region, each held as the words or bytes that the machine would hold.
pub struct MemoryFilesystem {
    fat: Vec<u16>,
    root: Vec<u8>,
    data: Vec<u8>,
}

impl View for MemoryFilesystem {
    type V = FsModel;

    closed spec fn view(&self) -> FsModel {
        FsModel {
            fat: self.fat@,
            dir: Seq::new(
                ROOT_ENTRIES as nat,
                |s: int| DirEntryModel::decode(self.root@.subrange(32 * s, 32 * s + 32)),
            ),
            data: self.data@,
        }
    }
}

impl MemoryFilesystem {
    /// Holds when the three regions have their sizes.
    pub closed spec fn sized(&self) -> bool {
        &&& self.fat@.len() == FAT_ENTRIES
        &&& self.root@.len() == ROOT_BYTES
        &&& self.data@.len() == DATA_BYTES
    }

    /// Holds when the store is sized and its content is well formed.
    pub open spec fn wf(&self) -> bool {
        self.sized() && self@.wf()
    }

    /// A store in which nothing was written yet: all slots unused, all
    /// clusters from 2 on free, the data region zero.
    pub fn new() -> (fs: MemoryFilesystem)
        ensures
            fs.wf(),
            fs@ == FsModel::formatted(),
    {
        let mut fat: Vec<u16> = vec![FAT_FREE; FAT_ENTRIES];
        fat[0] = FAT_MEDIA;
        fat[1] = FAT_END;
        let fs = MemoryFilesystem { fat, root: vec![0u8; ROOT_BYTES], data: vec![0u8; DATA_BYTES] };
        proof {
            let m = FsModel::formatted();
            assert(fs@.fat =~= m.fat);
            assert(fs@.data =~= m.data);
            assert forall|s: int| 0 <= s < ROOT_ENTRIES implies fs@.dir[s] == m.dir[s] by {
                assert(fs.root@.subrange(32 * s, 32 * s + 32) =~= Seq::new(32, |i: int| 0u8));
            }
            assert(fs@.dir =~= m.dir);
            assert forall|s: int| 0 <= s < m.dir.len() implies m.slot_ok(#[trigger] m.dir[s]) by {
                lemma_encode_decode(Seq::new(32, |i: int| 0u8));
            }
        }
        fs
    }

    /// The entry in directory slot `slot`, or `None` past the last slot.
    pub fn entry(&self, slot: usize) -> (e: Option<Fat16DirEntry>)
        requires
            self.wf(),
        ensures
            slot < ROOT_ENTRIES ==> e is Some && e->0@ == self@.dir[slot as int],
            slot >= ROOT_ENTRIES ==> e is None,
    {
        if slot < ROOT_ENTRIES {
            Some(self.read_entry(slot))
        } else {
            None
        }
    }

    /// The allocation marker of cluster `cluster`, or `None` past the table.
    pub fn marker(&self, cluster: usize) -> (m: Option<u16>)
        requires
            self.wf(),
        ensures
            m == if cluster < FAT_ENTRIES {
                Some(self@.fat[cluster as int])
            } else {
                None
            },
    {
        if cluster < FAT_ENTRIES {
            Some(self.fat[cluster])
        } else {
            None
        }
    }

    fn read_entry(&self, slot: usize) -> (e: Fat16DirEntry)
        requires
            self.sized(),
            slot < ROOT_ENTRIES,
        ensures
            e@ == self@.dir[slot as int],
    {
        Fat16DirEntry::decode_at(self.root.as_slice(), slot * ENTRY_SIZE)
    }

    fn write_entry(&mut self, slot: usize, e: &Fat16DirEntry)
        requires
            old(self).sized(),
            slot < ROOT_ENTRIES,
        ensures
            final(self).sized(),
            final(self)@.fat == old(self)@.fat,
            final(self)@.data == old(self)@.data,
            final(self)@.dir == old(self)@.dir.update(slot as int, e@),
    {
        let bytes: [u8; 32] = e.to_bytes();
        let base: usize = slot * ENTRY_SIZE;
        let mut k: usize = 0;
        while k < ENTRY_SIZE
            invariant
                k <= ENTRY_SIZE,
                base == slot * ENTRY_SIZE,
                slot < ROOT_ENTRIES,
                self.sized(),
                self.fat == old(self).fat,
                self.data == old(self).data,
                forall|j: int| 0 <= j < k ==> self.root@[base + j] == bytes@[j],
                forall|i: int|
                    0 <= i < ROOT_BYTES && !(base <= i < base + k) ==> self.root@[i] == old(
                        self,
                    ).root@[i],
            decreases ENTRY_SIZE - k,
        {
            self.root[base + k] = bytes[k];
            k += 1;
        }
        proof {
            lemma_decode_encode(e@);
            assert(self.root@.subrange(32 * slot, 32 * slot + 32) =~= bytes@);
            assert forall|s: int| 0 <= s < ROOT_ENTRIES && s != slot implies self@.dir[s] == old(
                self,
            )@.dir[s] by {
                assert(self.root@.subrange(32 * s, 32 * s + 32) =~= old(self).root@.subrange(
                    32 * s,
                    32 * s + 32,
                ));
            }
            assert(self@.dir =~= old(self)@.dir.update(slot as int, e@));
        }
    }

    fn find_free_slot(&self) -> (found: Option<usize>)
        requires
            self.sized(),
        ensures
            match found {
                Some(s) => first_free_slot(self@.dir) == Some(s as int),
                None => first_free_slot(self@.dir) is None,
            },
    {
        proof {
            lemma_free_slot_from(self@.dir, 0);
        }
        let mut s: usize = 0;
        while s < ROOT_ENTRIES
            invariant
                s <= ROOT_ENTRIES,
                self.sized(),
                forall|j: int| 0 <= j < s ==> (#[trigger] self@.dir[j]).occupied(),
            decreases ROOT_ENTRIES - s,
        {
            let first: u8 = self.root[s * ENTRY_SIZE];
            assert(self@.dir[s as int].name[0] == first);
            if first == SLOT_UNUSED || first == SLOT_DELETED {
                proof {
                    lemma_first_free_slot(self@.dir, s as int);
                }
                return Some(s);
            }
            s += 1;
        }
        None
    }

    fn find_free_cluster(&self) -> (found: Option<u16>)
        requires
            self.sized(),
        ensures
            match found {
                Some(c) => first_free_cluster(self@.fat) == Some(c as int),
                None => first_free_cluster(self@.fat) is None,
            },
    {
        proof {
            lemma_free_cluster_from(self@.fat, 2);
        }
        let mut c: usize = 2;
        while c < FAT_ENTRIES
            invariant
                2 <= c <= FAT_ENTRIES,
                self.sized(),
                forall|j: int| 2 <= j < c ==> #[trigger] self@.fat[j] != FAT_FREE,
            decreases FAT_ENTRIES - c,
        {
            if self.fat[c] == FAT_FREE {
                proof {
                    lemma_first_free_cluster(self@.fat, c as int);
                }
                return Some(c as u16);
            }
            c += 1;
        }
        None
    }

    fn find_entry(&self, name: &[u8; 8]) -> (found: Option<usize>)
        requires
            self.sized(),
        ensures
            match found {
                Some(s) => first_match(self@.dir, name@) == Some(s as int),
                None => first_match(self@.dir, name@) is None,
            },
    {
        proof {
            lemma_match_from(self@.dir, name@, 0);
        }
        let mut s: usize = 0;
        while s < ROOT_ENTRIES
            invariant
                s <= ROOT_ENTRIES,
                self.sized(),
                forall|j: int| 0 <= j < s ==> (#[trigger] self@.dir[j]).name != name@,
            decreases ROOT_ENTRIES - s,
        {
            let base: usize = s * ENTRY_SIZE;
            let mut k: usize = 0;
            while k < 8 && self.root[base + k] == name[k]
                invariant
                    k <= 8,
                    base == s * ENTRY_SIZE,
                    s < ROOT_ENTRIES,
                    self.sized(),
                    forall|j: int| 0 <= j < k ==> self.root@[base + j] == name@[j],
                decreases 8 - k,
            {
                k += 1;
            }
            if k == 8 {
                assert(self@.dir[s as int].name =~= name@);
                proof {
                    lemma_first_match(self@.dir, name@, s as int);
                }
                return Some(s);
            }
            assert(self@.dir[s as int].name[k as int] != name@[k as int]);
            s += 1;
        }
        None
    }

    /// Copies `data` into the data region from offset `start` on, as far as
    /// the region reaches.
    fn write_data(&mut self, start: usize, data: &[u8])
        requires
            old(self).sized(),
            start <= DATA_BYTES,
        ensures
            final(self).sized(),
            final(self)@.fat == old(self)@.fat,
            final(self)@.dir == old(self)@.dir,
            final(self)@.data == overlay(old(self)@.data, start as int, data@),
    {
        let room: usize = DATA_BYTES - start;
        let count: usize = if data.len() < room {
            data.len()
        } else {
            room
        };
        let mut i: usize = 0;
        while i < count
            invariant
                i <= count,
                count <= data@.len(),
                start + count <= DATA_BYTES,
                self.sized(),
                self.fat == old(self).fat,
                self.root == old(self).root,
                forall|k: int| 0 <= k < i ==> self.data@[start + k] == data@[k],
                forall|k: int|
                    0 <= k < DATA_BYTES && !(start <= k < start + i) ==> self.data@[k] == old(
                        self,
                    ).data@[k],
            decreases count - i,
        {
            self.data[start + i] = data[i];
            i += 1;
        }
        assert(self@.data =~= overlay(old(self)@.data, start as int, data@));
        assert(self@.dir =~= old(self)@.dir);
    }

    /// Writes a file into the first free slot and the first free cluster.
    fn store(&mut self, name: &[u8; 8], data: &[u8]) -> (status: FsStatus)
        requires
            old(self).wf(),
            data@.len() <= u32::MAX,
        ensures
            final(self).wf(),
            (final(self)@, status) == old(self)@.store(name@, data@),
    {
        let slot: usize = match self.find_free_slot() {
            Some(s) => s,
            None => {
                return FsStatus::SlotExhausted;
            },
        };
        let cluster: u16 = match self.find_free_cluster() {
            Some(c) => c,
            None => {
                return FsStatus::ClusterExhausted;
            },
        };
        proof {
            lemma_first_free_slot(self@.dir, slot as int);
            lemma_first_free_cluster(self@.fat, cluster as int);
        }
        let start: usize = (cluster as usize - 2) * CLUSTER_SIZE;
        self.write_data(start, data);
        self.fat[cluster as usize] = FAT_END;
        let before: Fat16DirEntry = self.read_entry(slot);
        let mut ext: [u8; 3] = [0x54u8; 3];
        ext[1] = 0x58;
        let after = Fat16DirEntry {
            name: *name,
            ext,
            attr: ATTR_ARCHIVE,
            reserved: before.reserved,
            creation_time_ms: before.creation_time_ms,
            creation_time: before.creation_time,
            creation_date: before.creation_date,
            last_access_date: before.last_access_date,
            cluster_high: before.cluster_high,
            m_time: before.m_time,
            m_date: before.m_date,
            first_cluster: cluster,
            file_size: data.len() as u32,
        };
        proof {
            assert(after@.ext =~= txt_extension());
            assert(after@ == written_entry(
                old(self)@.dir[slot as int],
                name@,
                cluster,
                data@.len() as u32,
            ));
        }
        self.write_entry(slot, &after);
        proof {
            let m0 = old(self)@;
            let m1 = self@;
            assert(m1.fat =~= m0.fat.update(cluster as int, FAT_END));
            assert(m1 == m0.store(name@, data@).0);
            assert forall|s: int| 0 <= s < m1.dir.len() implies m1.slot_ok(
                #[trigger] m1.dir[s],
            ) by {
                if s != slot {
                    assert(m0.slot_ok(m0.dir[s]));
                }
            }
        }
        if data.len() > CLUSTER_SIZE {
            FsStatus::Overrun
        } else {
            FsStatus::Done
        }
    }

    /// Reads the file in the first slot whose eight name bytes are `name`,
    /// up to `capacity` bytes of it.
    ///
    /// The status is `NotFound` when no slot has the name (the bytes are then
    /// empty), `Truncated` when fewer bytes come back than the file has, and
    /// `Done` otherwise.
    pub fn load(&self, name: &[u8; 8], capacity: usize) -> (out: (Vec<u8>, FsStatus))
        requires
            self.wf(),
        ensures
            (out.0@, out.1) == self@.load(name@, capacity as int),
    {
        let slot: usize = match self.find_entry(name) {
            Some(s) => s,
            None => {
                return (Vec::new(), FsStatus::NotFound);
            },
        };
        proof {
            lemma_first_match(self@.dir, name@, slot as int);
        }
        let e: Fat16DirEntry = self.read_entry(slot);
        let mut bytes: Vec<u8> = Vec::new();
        if e.file_size == 0 {
            assert(self@.content(e@, capacity as int) =~= Seq::<u8>::empty());
            return (bytes, FsStatus::Done);
        }
        assert(self@.slot_ok(self@.dir[slot as int]));
        let start: usize = (e.first_cluster as usize - 2) * CLUSTER_SIZE;
        let room: usize = DATA_BYTES - start;
        let size: usize = e.file_size as usize;
        let wanted: usize = if size <= capacity {
            size
        } else {
            capacity
        };
        let count: usize = if wanted <= room {
            wanted
        } else {
            room
        };
        let mut i: usize = 0;
        while i < count
            invariant
                i <= count,
                start + count <= DATA_BYTES,
                self.sized(),
                bytes@ == self@.data.subrange(start as int, start + i),
            decreases count - i,
        {
            bytes.push(self.data[start + i]);
            assert(bytes@ =~= self@.data.subrange(start as int, start + i + 1));
            i += 1;
        }
        assert(bytes@ =~= self@.content(e@, capacity as int));
        let status = if count < size {
            FsStatus::Truncated
        } else {
            FsStatus::Done
        };
        (bytes, status)
    }

    /// The occupied entries among the first `limit` slots, in slot order. A
    /// slot whose first name byte marks it unused or deleted is never listed.
    pub fn list(&self, limit: usize) -> (entries: Vec<Fat16DirEntry>)
        requires
            self.wf(),
        ensures
            entries@.map_values(|e: Fat16DirEntry| e@) == self@.list(limit as int),
            forall|i: int| 0 <= i < entries@.len() ==> (#[trigger] entries@[i])@.occupied(),
    {
        let bound: usize = if limit <= ROOT_ENTRIES {
            limit
        } else {
            ROOT_ENTRIES
        };
        let mut entries: Vec<Fat16DirEntry> = Vec::new();
        let mut s: usize = 0;
        assert(entries@.map_values(|e: Fat16DirEntry| e@) =~= listing(self@.dir, 0));
        while s < bound
            invariant
                s <= bound <= ROOT_ENTRIES,
                self.wf(),
                entries@.map_values(|e: Fat16DirEntry| e@) == listing(self@.dir, s as int),
                forall|i: int| 0 <= i < entries@.len() ==> (#[trigger] entries@[i])@.occupied(),
            decreases bound - s,
        {
            let e: Fat16DirEntry = self.read_entry(s);
            let ghost shown = entries@.map_values(|e: Fat16DirEntry| e@);
            if e.name[0] != SLOT_UNUSED && e.name[0] != SLOT_DELETED {
                entries.push(e);
                assert(entries@.map_values(|e: Fat16DirEntry| e@) =~= shown.push(e@));
            }
            s += 1;
        }
        entries
    }
}

/// Creates an empty file named `filename_8char`: takes the first free
/// directory slot and the first free cluster, marks the cluster as the end of
/// a chain and writes an entry of size zero.
///
/// With no free slot the status is `SlotExhausted`, with a free slot but no
/// free cluster `ClusterExhausted`; in both cases the store stays as it was.
pub fn fat16_create_file(fs: &mut MemoryFilesystem, filename_8char: &[u8; 8]) -> (status: FsStatus)
    requires
        old(fs).wf(),
    ensures
        final(fs).wf(),
        (final(fs)@, status) == old(fs)@.create(filename_8char@),
{
    let nothing: [u8; 0] = [];
    let status = fs.store(filename_8char, nothing.as_slice());
    proof {
        assert(nothing@ =~= Seq::<u8>::empty());
    }
    status
}

/// Saves `data` as a new file named `filename_8char`: allocates as
/// [`fat16_create_file`] does, copies the payload to the cluster's place in
/// the data region and records its length. An empty payload gives an empty
/// file.
///
/// The length is not held against the cluster size: a longer payload is
/// stored over the clusters that follow, and the status is then `Overrun`.
pub fn fat16_save(fs: &mut MemoryFilesystem, filename_8char: &[u8; 8], data: &[u8]) -> (status:
    FsStatus)
    requires
        old(fs).wf(),
        data@.len() <= u32::MAX,
    ensures
        final(fs).wf(),
        (final(fs)@, status) == old(fs)@.save(filename_8char@, data@),
{
    fs.store(filename_8char, data)
}

/// What a successful store leaves behind: the first free slot holds the new
/// entry, the first free cluster ends a chain, and the payload lies at the
/// cluster's place in the data region.
pub proof fn lemma_store_done(m: FsModel, name: Seq<u8>, data: Seq<u8>) -> (place: (int, int))
    requires
        m.wf(),
        name.len() == 8,
        data.len() <= u32::MAX,
        m.has_free_slot(),
        m.has_free_cluster(),
    ensures
        is_first_free_slot(m.dir, place.0),
        is_first_free_cluster(m.fat, place.1),
        m.store(name, data).0 == m.written(place.0, place.1, name, data),
        m.store(name, data).0.wf(),
        m.store(name, data).1 == if data.len() > CLUSTER_SIZE {
            FsStatus::Overrun
        } else {
            FsStatus::Done
        },
{
    let s = first_free_slot(m.dir)->0;
    let c = first_free_cluster(m.fat)->0;
    lemma_first_free_slot(m.dir, s);
    lemma_first_free_cluster(m.fat, c);
    let m1 = m.store(name, data).0;
    assert forall|t: int| 0 <= t < m1.dir.len() implies m1.slot_ok(#[trigger] m1.dir[t]) by {
        if t != s {
            assert(m.slot_ok(m.dir[t]));
        }
    }
    (s, c)
}

/// When a store fails and when it succeeds.
///
/// It fails for want of a slot exactly when every slot is occupied, and for
/// want of a cluster exactly when some slot is free and no cluster from 2 on
/// is; either way the store stays as it was. Otherwise it succeeds, and
/// reports an overrun exactly when the payload is longer than one cluster.
pub proof fn lemma_store_status(m: FsModel, name: Seq<u8>, data: Seq<u8>)
    requires
        m.wf(),
    ensures
        m.store(name, data).1 == FsStatus::SlotExhausted <==> (forall|s: int|
            0 <= s < m.dir.len() ==> (#[trigger] m.dir[s]).occupied()),
        m.store(name, data).1 == FsStatus::ClusterExhausted <==> (exists|s: int|
            0 <= s < m.dir.len() && !(#[trigger] m.dir[s]).occupied()) && (forall|c: int|
            2 <= c < m.fat.len() ==> #[trigger] m.fat[c] != FAT_FREE),
        m.store(name, data).1 == FsStatus::SlotExhausted || m.store(name, data).1
            == FsStatus::ClusterExhausted ==> m.store(name, data).0 == m,
        m.store(name, data).1 == FsStatus::Overrun <==> m.has_free_slot() && m.has_free_cluster()
            && data.len() > CLUSTER_SIZE,
        m.store(name, data).1 == FsStatus::Done <==> m.has_free_slot() && m.has_free_cluster()
            && data.len() <= CLUSTER_SIZE,
{
    lemma_free_slot_from(m.dir, 0);
    lemma_free_cluster_from(m.fat, 2);
}

/// When a load finds its file and what it hands out.
///
/// It finds none exactly when no slot has the name, and then hands out
/// nothing. It never hands out more than the room asked for, nor more than
/// the file's size, and reports a cut exactly when it hands out less than
/// that size.
pub proof fn lemma_load_status(m: FsModel, name: Seq<u8>, capacity: int)
    requires
        capacity >= 0,
    ensures
        m.load(name, capacity).1 == FsStatus::NotFound <==> (forall|s: int|
            0 <= s < m.dir.len() ==> (#[trigger] m.dir[s]).name != name),
        m.load(name, capacity).1 == FsStatus::NotFound ==> m.load(name, capacity).0.len() == 0,
        m.load(name, capacity).0.len() <= capacity,
        m.has_name(name) ==> {
            let e = m.dir[first_match(m.dir, name)->0];
            &&& m.load(name, capacity).0.len() <= e.file_size
            &&& m.load(name, capacity).1 == FsStatus::Truncated <==> m.load(name, capacity).0.len()
                < e.file_size
            &&& m.load(name, capacity).1 == FsStatus::Done <==> m.load(name, capacity).0.len()
                == e.file_size
        },
{
    lemma_match_from(m.dir, name, 0);
    if m.has_name(name) {
        let e = m.dir[first_match(m.dir, name)->0];
        assert(m.content(e, capacity).len() <= capacity);
        assert(m.content(e, capacity).len() <= e.file_size);
    }
}

/// Every operation of the store keeps a well-formed store well formed.
pub proof fn lemma_operations_keep_wf(m: FsModel, name: Seq<u8>, data: Seq<u8>)
    requires
        m.wf(),
        name.len() == 8,
        data.len() <= u32::MAX,
    ensures
        m.store(name, data).0.wf(),
        m.create(name).0.wf(),
        m.save(name, data).0.wf(),
        m.save_input(name, data).0.wf(),
{
    if m.has_free_slot() && m.has_free_cluster() {
        lemma_store_done(m, name, data);
        lemma_store_done(m, name, Seq::empty());
    }
}

/// A file created under a name that no slot has yet, and loaded again, is
/// empty, whenever a slot and a cluster were free for it.
pub proof fn lemma_create_then_load(m: FsModel, name: Seq<u8>, capacity: int)
    requires
        m.wf(),
        name.len() == 8,
        !m.has_name(name),
        m.has_free_slot(),
        m.has_free_cluster(),
    ensures
        m.create(name).1 == FsStatus::Done,
        m.create(name).0.load(name, capacity) == (Seq::<u8>::empty(), FsStatus::Done),
{
    let (s, c) = lemma_store_done(m, name, Seq::empty());
    let m1 = m.create(name).0;
    lemma_match_from(m.dir, name, 0);
    assert(m1.dir[s].name == name);
    assert forall|j: int| 0 <= j < s implies (#[trigger] m1.dir[j]).name != name by {
        assert(m1.dir[j] == m.dir[j]);
    }
    lemma_first_match(m1.dir, name, s);
}

/// A payload of at most one cluster, saved under a name that no slot has yet
/// and loaded again with room for all of it, comes back unchanged, whenever
/// a slot and a cluster were free for it.
pub proof fn lemma_save_then_load(m: FsModel, name: Seq<u8>, data: Seq<u8>, capacity: int)
    requires
        m.wf(),
        name.len() == 8,
        data.len() <= CLUSTER_SIZE,
        capacity >= data.len(),
        !m.has_name(name),
        m.has_free_slot(),
        m.has_free_cluster(),
    ensures
        m.save(name, data).1 == FsStatus::Done,
        m.save(name, data).0.load(name, capacity) == (data, FsStatus::Done),
{
    let (s, c) = lemma_store_done(m, name, data);
    let m1 = m.save(name, data).0;
    lemma_match_from(m.dir, name, 0);
    assert(m1.dir[s].name == name);
    assert forall|j: int| 0 <= j < s implies (#[trigger] m1.dir[j]).name != name by {
        assert(m1.dir[j] == m.dir[j]);
    }
    lemma_first_match(m1.dir, name, s);
    let e = m1.dir[s];
    assert(e.file_size == data.len());
    assert(e.first_cluster == c);
    assert(m1.content(e, capacity) =~= data);
}

/// Saving an empty payload is creating the file.
pub proof fn lemma_empty_save_is_create(m: FsModel, name: Seq<u8>, data: Seq<u8>)
    requires
        data.len() == 0,
    ensures
        m.save(name, data) == m.create(name),
{
    assert(data =~= Seq::<u8>::empty());
}

/// No listing shows a slot whose first name byte marks it unused or deleted.
pub proof fn lemma_list_occupied(m: FsModel, limit: int)
    ensures
        forall|i: int|
            0 <= i < m.list(limit).len() ==> {
                &&& (#[trigger] m.list(limit)[i]).name[0] != SLOT_UNUSED
                &&& m.list(limit)[i].name[0] != SLOT_DELETED
            },
{
    let bound = if limit <= m.dir.len() {
        limit
    } else {
        m.dir.len() as int
    };
    lemma_listing_occupied(m.dir, bound);
}

/// Every entry of a listing is occupied.
pub proof fn lemma_listing_occupied(dir: Seq<DirEntryModel>, n: int)
    ensures
        forall|i: int| 0 <= i < listing(dir, n).len() ==> (#[trigger] listing(dir, n)[i]).occupied(),
    decreases n,
{
    if n > 0 {
        lemma_listing_occupied(dir, n - 1);
        let before = listing(dir, n - 1);
        assert forall|i: int| 0 <= i < listing(dir, n).len() implies (#[trigger] listing(
            dir,
            n,
        )[i]).occupied() by {
            if i < before.len() {
                assert(before[i].occupied());
            }
        }
    }
}

/// Once every directory slot is occupied, creating a file changes nothing:
/// the store is as before, and so is every listing.
pub proof fn lemma_create_when_full(m: FsModel, name: Seq<u8>, limit: int)
    requires
        forall|s: int| 0 <= s < m.dir.len() ==> (#[trigger] m.dir[s]).occupied(),
    ensures
        m.create(name) == (m, FsStatus::SlotExhausted),
        m.create(name).0.list(limit) == m.list(limit),
{
    lemma_free_slot_from(m.dir, 0);
}

/// Saves the text captured at the input bar as a new file, as
/// [`fat16_save`] does with the captured bytes as the payload. Where nothing
/// was captured, nothing is written.
pub fn fat16_save_input_as_file(
    fs: &mut MemoryFilesystem,
    filename_8char: &[u8; 8],
    input: &[u8],
) -> (status: FsStatus)
    requires
        old(fs).wf(),
        input@.len() <= u32::MAX,
    ensures
        final(fs).wf(),
        (final(fs)@, status) == old(fs)@.save_input(filename_8char@, input@),
{
    if input.len() == 0 {
        return FsStatus::Done;
    }
    fat16_save(fs, filename_8char, input)
}

/// Number of slots that the plain listing looks at.
pub const PLAIN_LIST_SLOTS: usize = 10;

/// Number of slots that the mini-commander looks at.
pub const MC_LIST_SLOTS: usize = 15;

/// Number of bytes that the file view has room for: rows 15 to 24.
pub const VIEW_BYTES: usize = 800;

/// Number of occupied slots among the first `n`.
pub open spec fn listed_count(dir: Seq<DirEntryModel>, n: int) -> int
    decreases n,
{
    if n <= 0 {
        0
    } else if dir[n - 1].occupied() {
        listed_count(dir, n - 1) + 1
    } else {
        listed_count(dir, n - 1)
    }
}

/// The page after the names of the occupied slots among the first `n` are
/// written from row 10 down, one name to a row, colours untouched.
pub open spec fn plain_listing(page: Seq<Cell>, dir: Seq<DirEntryModel>, n: int) -> Seq<Cell>
    decreases n,
{
    if n <= 0 {
        page
    } else if dir[n - 1].occupied() {
        lettered(
            plain_listing(page, dir, n - 1),
            0,
            10 + listed_count(dir, n - 1),
            dir[n - 1].name,
        )
    } else {
        plain_listing(page, dir, n - 1)
    }
}

/// Writes the names of the files in the first ten slots on the page, from
/// row 10 down.
pub fn ramfs_list_files(fs: &MemoryFilesystem, screen: &mut Screen)
    requires
        fs.wf(),
        old(screen).wf(),
    ensures
        final(screen).wf(),
        final(screen)@ == plain_listing(old(screen)@, fs@.dir, PLAIN_LIST_SLOTS as int),
{
    let mut row: u64 = 10;
    let mut s: usize = 0;
    while s < PLAIN_LIST_SLOTS
        invariant
            s <= PLAIN_LIST_SLOTS,
            fs.wf(),
            screen.wf(),
            row == 10 + listed_count(fs@.dir, s as int),
            row <= 10 + s,
            screen@ == plain_listing(old(screen)@, fs@.dir, s as int),
        decreases PLAIN_LIST_SLOTS - s,
    {
        let e: Fat16DirEntry = fs.read_entry(s);
        if e.name[0] != SLOT_UNUSED && e.name[0] != SLOT_DELETED {
            write_letters(screen, 0, row, e.name.as_slice());
            row += 1;
        }
        s += 1;
    }
}

/// Shows the file named `filename_8char` on the page: a caption on row 14
/// and the content from row 15 on, as far as the page reaches.
///
/// The status is that of [`MemoryFilesystem::load`] with room for the 800
/// bytes that fit. Where no slot has the name, the page stays as it is.
pub fn fat16_read(fs: &MemoryFilesystem, screen: &mut Screen, filename_8char: &[u8; 8]) -> (status:
    FsStatus)
    requires
        fs.wf(),
        old(screen).wf(),
    ensures
        final(screen).wf(),
        status == fs@.load(filename_8char@, VIEW_BYTES as int).1,
        final(screen)@ == if status == FsStatus::NotFound {
            old(screen)@
        } else {
            printed(
                printed(old(screen)@, 0, 14, 0x0B, text("ZAWARTOSC PLIKU:")),
                0,
                15,
                0x0F,
                fs@.load(filename_8char@, VIEW_BYTES as int).0,
            )
        },
{
    let (bytes, status) = fs.load(filename_8char, VIEW_BYTES);
    if status != FsStatus::NotFound {
        print_text(screen, 0, 14, 0x0B, "ZAWARTOSC PLIKU:");
        print_bytes(screen, 0, 15, 0x0F, bytes.as_slice());
    }
    status
}

/// The page after the mini-commander has listed the occupied slots among
/// the first `n`: each name on a row of its own from row 4 down, followed by
/// its extension, the slot that `selection` names in inverted colours.
pub open spec fn commander_rows(page: Seq<Cell>, dir: Seq<DirEntryModel>, selection: int, n: int)
    -> Seq<Cell>
    decreases n,
{
    if n <= 0 {
        page
    } else if dir[n - 1].occupied() {
        let row = 4 + listed_count(dir, n - 1);
        let color = if n - 1 == selection {
            0x70u8
        } else {
            0x1Fu8
        };
        printed(
            printed(commander_rows(page, dir, selection, n - 1), 4, row, color, dir[n - 1].name),
            13,
            row,
            color,
            text(".TXT"),
        )
    } else {
        commander_rows(page, dir, selection, n - 1)
    }
}

/// The page after the mini-commander's list and footer are drawn.
pub open spec fn commander_list(page: Seq<Cell>, dir: Seq<DirEntryModel>, selection: int) -> Seq<
    Cell,
> {
    let rows = commander_rows(page, dir, selection, MC_LIST_SLOTS as int);
    if listed_count(dir, MC_LIST_SLOTS as int) == 0 {
        printed(rows, 2, 22, 0x0E, text(" Brak plikow. [F7] Nowy  [ESC] Wyjdz "))
    } else {
        printed(
            rows,
            2,
            22,
            0x0F,
            text(" [UP/DOWN] Wybor  [ENTER] Otworz  [F7] Nowy  [ESC] Wyjdz "),
        )
    }
}

/// The page of the mini-commander: frame, title, footer and list.
pub open spec fn commander_page(page: Seq<Cell>, dir: Seq<DirEntryModel>, selection: int) -> Seq<
    Cell,
> {
    let blank = cleared(page, 0x00);
    let frame = filled_rect(blank, 1, 1, 78, 22, 0x01);
    let title = printed(frame, 2, 1, 0x1F, text(" FAT16 MINI-COMMANDER "));
    let footer = printed(
        title,
        2,
        22,
        0x0F,
        text(" [UP/DOWN] Wybor  [F7] Nowy  [ESC] Wyjdz "),
    );
    commander_list(footer, dir, selection)
}

/// Redraws the mini-commander's list: the files in the first fifteen slots,
/// the selected slot highlighted, and a footer that tells whether there are
/// any. Returns the number of files listed.
pub fn refresh_mc_list(fs: &MemoryFilesystem, screen: &mut Screen, selection: u8) -> (found: u8)
    requires
        fs.wf(),
        old(screen).wf(),
    ensures
        final(screen).wf(),
        found == listed_count(fs@.dir, MC_LIST_SLOTS as int),
        final(screen)@ == commander_list(old(screen)@, fs@.dir, selection as int),
{
    let mut found: u8 = 0;
    let mut s: usize = 0;
    while s < MC_LIST_SLOTS
        invariant
            s <= MC_LIST_SLOTS,
            fs.wf(),
            screen.wf(),
            found == listed_count(fs@.dir, s as int),
            found <= s,
            screen@ == commander_rows(old(screen)@, fs@.dir, selection as int, s as int),
        decreases MC_LIST_SLOTS - s,
    {
        let e: Fat16DirEntry = fs.read_entry(s);
        if e.name[0] != SLOT_UNUSED && e.name[0] != SLOT_DELETED {
            let color: u8 = if s == selection as usize {
                0x70
            } else {
                0x1F
            };
            print_bytes(screen, 4, 4 + found as u64, color, e.name.as_slice());
            print_text(screen, 13, 4 + found as u64, color, ".TXT");
            found += 1;
        }
        s += 1;
    }
    if found == 0 {
        print_text(screen, 2, 22, 0x0E, " Brak plikow. [F7] Nowy  [ESC] Wyjdz ");
    } else {
        print_text(screen, 2, 22, 0x0F, " [UP/DOWN] Wybor  [ENTER] Otworz  [F7] Nowy  [ESC] Wyjdz ");
    }
    found
}

/// Draws the mini-commander: clears the page, draws the frame, the title
/// and the footer, then the list as [`refresh_mc_list`] does. Returns the
/// number of files listed.
pub fn fat16_mc(fs: &MemoryFilesystem, screen: &mut Screen, selection: u8) -> (found: u8)
    requires
        fs.wf(),
        old(screen).wf(),
    ensures
        final(screen).wf(),
        found == listed_count(fs@.dir, MC_LIST_SLOTS as int),
        final(screen)@ == commander_page(old(screen)@, fs@.dir, selection as int),
{
    clear(screen, 0x00);
    draw_rect(screen, 1, 1, 78, 22, 0x01);
    print_text(screen, 2, 1, 0x1F, " FAT16 MINI-COMMANDER ");
    print_text(screen, 2, 22, 0x0F, " [UP/DOWN] Wybor  [F7] Nowy  [ESC] Wyjdz ");
    refresh_mc_list(fs, screen, selection)
}

/// The number of files that the mini-commander lists is the length of the
/// listing of the same slots.
pub proof fn lemma_listed_count(dir: Seq<DirEntryModel>, n: int)
    ensures
        listed_count(dir, n) == listing(dir, n).len(),
    decreases n,
{
    if n > 0 {
        lemma_listed_count(dir, n - 1);
    }
}

} // verus!
