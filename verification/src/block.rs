//! Block devices, seen as an array of bytes in 512-byte sectors.

use vstd::prelude::*;

verus! {

/// Bytes per disk sector, as the FAT32 and GPT code assume.
pub const SECTOR_SIZE: usize = 512;

/// A device holding `disk()` bytes, addressed by 512-byte sectors.
/// The NVMe controller implements this outside the library; `RamDisk`
/// implements it here.
pub trait BlockDevice: Sized {
    /// The device's current content.
    spec fn disk(&self) -> Seq<u8>;

    /// Fills `buffer` with the bytes starting at sector `sector`.
    fn read_block(&self, sector: usize, buffer: &mut Vec<u8>) -> (r: usize)
        requires
            sector * 512 + old(buffer)@.len() <= self.disk().len(),
        ensures
            r == old(buffer)@.len(),
            final(buffer)@ == self.disk().subrange(
                sector * 512,
                sector * 512 + old(buffer)@.len(),
            ),
    ;

    /// Writes `buffer` over the bytes starting at sector `sector`.
    fn write_block(&mut self, sector: usize, buffer: &Vec<u8>) -> (r: usize)
        requires
            sector * 512 + buffer@.len() <= old(self).disk().len(),
        ensures
            r == buffer@.len(),
            final(self).disk() == old(self).disk().subrange(0, sector * 512) + buffer@ + old(
                self,
            ).disk().skip(sector * 512 + buffer@.len() as int),
    ;

    /// Total bytes on the device.
    fn disk_size(&self) -> (r: usize)
        ensures
            r == self.disk().len(),
    ;
}

/// An in-memory block device.
pub struct RamDisk {
    pub data: Vec<u8>,
}

impl RamDisk {
    /// A disk over the given bytes.
    pub fn new(data: Vec<u8>) -> (r: Self)
        ensures
            r.disk() == data@,
    {
        RamDisk { data }
    }
}

impl BlockDevice for RamDisk {
    open spec fn disk(&self) -> Seq<u8> {
        self.data@
    }

    fn read_block(&self, sector: usize, buffer: &mut Vec<u8>) -> (r: usize)
    {
        let total = self.data.len();
        let len = buffer.len();
        let base = sector * 512;
        let mut i: usize = 0;
        while i < len
            invariant
                0 <= i <= len,
                buffer@.len() == len,
                base == sector * 512,
                base + len <= self.data@.len(),
                self.data@.len() <= usize::MAX,
                forall|j: int| 0 <= j < i ==> buffer@[j] == self.data@[base + j],
            decreases len - i,
        {
            let b = self.data[base + i];
            buffer.set(i, b);
            i = i + 1;
        }
        proof {
            assert(buffer@ =~= self.disk().subrange(base as int, base + len));
        }
        len
    }

    fn write_block(&mut self, sector: usize, buffer: &Vec<u8>) -> (r: usize)
    {
        let total = self.data.len();
        let len = buffer.len();
        let base = sector * 512;
        let mut i: usize = 0;
        while i < len
            invariant
                0 <= i <= len,
                buffer@.len() == len,
                base == sector * 512,
                base + len <= self.data@.len(),
                self.data@.len() <= usize::MAX,
                self.data@.len() == old(self).data@.len(),
                forall|j: int| 0 <= j < i ==> self.data@[base + j] == buffer@[j],
                forall|j: int|
                    0 <= j < self.data@.len() && !(base <= j < base + i) ==> self.data@[j] == old(
                        self,
                    ).data@[j],
            decreases len - i,
        {
            let b = buffer[i];
            self.data.set(base + i, b);
            i = i + 1;
        }
        proof {
            assert(self.data@ =~= old(self).data@.subrange(0, base as int) + buffer@ + old(
                self,
            ).data@.skip(base + len));
        }
        len
    }

    fn disk_size(&self) -> (r: usize) {
        self.data.len()
    }
}

} // verus!
