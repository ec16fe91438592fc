//! 32-byte FAT directory entries and 8.3 name handling.

use vstd::prelude::*;

use crate::bits::{le16_at, le32_at, read_le16, read_le32};
use crate::fs::gpt::copy_bytes;

verus! {

/// The bytes of a name field up to the first padding byte (space or
/// NUL).
pub open spec fn spec_fmt_name(b: Seq<u8>, i: int, end: int) -> Seq<u8>
    decreases end - i,
{
    if i < 0 || i >= end || i >= b.len() || b[i] == 0x20 || b[i] == 0 {
        Seq::empty()
    } else {
        seq![b[i]] + spec_fmt_name(b, i + 1, end)
    }
}

/// An ASCII letter folded to upper case; other bytes unchanged.
pub open spec fn spec_upper(b: u8) -> u8 {
    if 0x61 <= b <= 0x7a {
        (b - 0x20) as u8
    } else {
        b
    }
}

/// Case-insensitive byte-string equality.
pub open spec fn spec_eq_ignore_case(a: Seq<u8>, b: Seq<u8>) -> bool {
    a.len() == b.len() && forall|i: int|
        0 <= i < a.len() ==> spec_upper(a[i]) == spec_upper(b[i])
}

/// Compares two byte strings ignoring ASCII case.
pub fn eq_ignore_ascii_case(a: &Vec<u8>, b: &Vec<u8>) -> (r: bool)
    ensures
        r == spec_eq_ignore_case(a@, b@),
{
    if a.len() != b.len() {
        return false;
    }
    let n = a.len();
    let mut i: usize = 0;
    while i < n
        invariant
            0 <= i <= n,
            n == a@.len() == b@.len(),
            forall|j: int| 0 <= j < i ==> spec_upper(a@[j]) == spec_upper(b@[j]),
        decreases n - i,
    {
        let ab = a[i];
        let bb = b[i];
        let au = if 0x61 <= ab && ab <= 0x7a {
            ab - 0x20
        } else {
            ab
        };
        let bu = if 0x61 <= bb && bb <= 0x7a {
            bb - 0x20
        } else {
            bb
        };
        if au != bu {
            return false;
        }
        i = i + 1;
    }
    true
}

/// One short (8.3) directory entry, already decoded.
#[derive(Clone, Debug)]
pub struct DirectoryEntry {
    pub name: Vec<u8>,
    pub ext: Vec<u8>,
    pub attributes: u8,
    pub reserved: u8,
    pub creation_time_tenths: u8,
    pub creation_time: u16,
    pub creation_date: u16,
    pub access_date: u16,
    pub cluster_high: u16,
    pub modification_time: u16,
    pub modification_date: u16,
    pub cluster_low: u16,
    pub size: u32,
}

/// The first cluster an entry with the given halves points at.
pub open spec fn spec_cluster(high: u16, low: u16) -> u32 {
    ((high as u32) << 16) | (low as u32)
}

/// How `r` relates to the 32 bytes at `off` of `sector`: nothing for a
/// deleted or end marker, the decoded fields otherwise.
pub open spec fn entry_matches(r: Option<DirectoryEntry>, sector: Seq<u8>, off: int) -> bool {
    match r {
        None => sector[off] == 0xE5 || sector[off] == 0,
        Some(e) => {
            &&& sector[off] != 0xE5 && sector[off] != 0
            &&& e.name@ == spec_fmt_name(sector, off, off + 8)
            &&& e.ext@ == spec_fmt_name(sector, off + 8, off + 11)
            &&& e.attributes == sector[off + 11]
            &&& e.cluster_high == le16_at(sector, off + 20)
            &&& e.cluster_low == le16_at(sector, off + 26)
            &&& e.size == le32_at(sector, off + 28)
        },
    }
}

impl DirectoryEntry {
    /// Whether the entry is a long-file-name fragment.
    pub fn is_long_name(&self) -> (r: bool)
        ensures
            r == (self.attributes == 0x0F),
    {
        self.attributes == 0x0F
    }

    /// Whether the entry names a directory.
    pub fn is_directory(&self) -> (r: bool)
        ensures
            r == (self.attributes & 0x10 != 0),
    {
        self.attributes & 0x10 != 0
    }

    /// The entry's first cluster.
    pub fn cluster(&self) -> (r: u32)
        ensures
            r == spec_cluster(self.cluster_high, self.cluster_low),
    {
        ((self.cluster_high as u32) << 16) | (self.cluster_low as u32)
    }

    /// The 8.3 name with its dot, `NAME.EXT`, or just `NAME` when the
    /// extension is empty.
    pub fn file_name(&self) -> (r: Vec<u8>)
        ensures
            r@ == if self.ext@.len() == 0 {
                self.name@
            } else {
                self.name@ + seq![0x2eu8] + self.ext@
            },
    {
        if self.ext.len() == 0 {
            let r = copy_bytes(&self.name, 0, self.name.len());
            proof {
                assert(r@ =~= self.name@);
            }
            r
        } else {
            let mut r = copy_bytes(&self.name, 0, self.name.len());
            r.push(0x2e);
            let mut i: usize = 0;
            let n = self.ext.len();
            while i < n
                invariant
                    0 <= i <= n,
                    n == self.ext@.len(),
                    r@ == self.name@.subrange(0, self.name@.len() as int) + seq![0x2eu8]
                        + self.ext@.subrange(0, i as int),
                decreases n - i,
            {
                r.push(self.ext[i]);
                proof {
                    assert(self.ext@.subrange(0, i + 1) =~= self.ext@.subrange(0, i as int).push(
                        self.ext@[i as int],
                    ));
                }
                i = i + 1;
            }
            proof {
                assert(self.name@.subrange(0, self.name@.len() as int) =~= self.name@);
                assert(self.ext@.subrange(0, n as int) =~= self.ext@);
            }
            r
        }
    }

    /// Decodes the 32-byte record at `offset`. `None` marks a deleted
    /// entry (0xE5) or the end of the directory (0x00).
    pub fn from_sector(sector: &Vec<u8>, offset: usize) -> (r: Option<DirectoryEntry>)
        requires
            offset + 32 <= sector@.len(),
        ensures
            entry_matches(r, sector@, offset as int),
    {
        let _blen = sector.len();
        let first = sector[offset];
        if first == 0xE5 || first == 0x00 {
            return None;
        }
        let name = format_string(sector, offset, offset + 8);
        let ext = format_string(sector, offset + 8, offset + 11);
        Some(
            DirectoryEntry {
                name,
                ext,
                attributes: sector[offset + 11],
                reserved: sector[offset + 12],
                creation_time_tenths: sector[offset + 13],
                creation_time: read_le16(sector, offset + 14),
                creation_date: read_le16(sector, offset + 16),
                access_date: read_le16(sector, offset + 18),
                cluster_high: read_le16(sector, offset + 20),
                modification_time: read_le16(sector, offset + 22),
                modification_date: read_le16(sector, offset + 24),
                cluster_low: read_le16(sector, offset + 26),
                size: read_le32(sector, offset + 28),
            },
        )
    }
}

/// Copies a name field up to its first padding byte.
pub fn format_string(bytes: &Vec<u8>, start: usize, end: usize) -> (r: Vec<u8>)
    requires
        end <= bytes@.len(),
    ensures
        r@ == spec_fmt_name(bytes@, start as int, end as int),
    decreases end - start,
{
    let _blen = bytes.len();
    let mut r: Vec<u8> = Vec::new();
    let mut i: usize = start;
    if start >= end {
        proof {
            assert(r@ =~= spec_fmt_name(bytes@, start as int, end as int));
        }
        return r;
    }
    while i < end
        invariant
            start <= i <= end,
            end <= bytes@.len() <= usize::MAX,
            spec_fmt_name(bytes@, start as int, end as int) == r@ + spec_fmt_name(
                bytes@,
                i as int,
                end as int,
            ),
            forall|j: int| start <= j < i ==> bytes@[j] != 0x20 && bytes@[j] != 0,
        decreases end - i,
    {
        let b = bytes[i];
        if b == 0x20 || b == 0 {
            proof {
                assert(spec_fmt_name(bytes@, i as int, end as int) =~= Seq::<u8>::empty());
                assert(r@ =~= r@ + Seq::<u8>::empty());
            }
            return r;
        }
        let ghost r0 = r@;
        r.push(b);
        proof {
            assert(spec_fmt_name(bytes@, i as int, end as int) == seq![bytes@[i as int]]
                + spec_fmt_name(bytes@, i + 1, end as int));
            assert(r0 + (seq![bytes@[i as int]] + spec_fmt_name(bytes@, i + 1, end as int)) =~= r@
                + spec_fmt_name(bytes@, i + 1, end as int));
        }
        i = i + 1;
    }
    proof {
        assert(spec_fmt_name(bytes@, i as int, end as int) =~= Seq::<u8>::empty());
        assert(r@ =~= r@ + Seq::<u8>::empty());
    }
    r
}

} // verus!
