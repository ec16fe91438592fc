//! The root system description table: a header and an array of 32-bit
//! pointers to the subordinate tables.

use vstd::prelude::*;

use crate::acpi::sdt::Sdt;
use crate::bits::{le32_at, read_le32};

verus! {

/// The RSDT, with its pointer array decoded.
#[derive(Clone, Debug)]
pub struct Rsdt {
    pub header: Sdt,
    pub tables: Vec<u32>,
}

impl Rsdt {
    /// Decodes the RSDT from the bytes at `rsdt_address`. `None` when
    /// the advertised length is shorter than the header or longer than
    /// the bytes at hand.
    pub fn parse(bytes: &Vec<u8>) -> (r: Option<Rsdt>)
        requires
            bytes@.len() >= 36,
        ensures
            match r {
                Some(t) => {
                    &&& t.header.signature == le32_at(bytes@, 0)
                    &&& t.header.length == le32_at(bytes@, 4)
                    &&& 36 <= t.header.length <= bytes@.len()
                    &&& t.tables@.len() == (t.header.length - 36) / 4
                    &&& forall|k: int|
                        0 <= k < t.tables@.len() ==> #[trigger] t.tables@[k] == le32_at(
                            bytes@,
                            36 + 4 * k,
                        )
                },
                None => le32_at(bytes@, 4) < 36 || le32_at(bytes@, 4) > bytes@.len(),
            },
    {
        let blen = bytes.len();
        let header = Sdt::parse(bytes);
        if header.length < 36 || header.length as usize > blen {
            return None;
        }
        let count = (header.length as usize - 36) / 4;
        let mut tables: Vec<u32> = Vec::new();
        let mut k: usize = 0;
        while k < count
            invariant
                0 <= k <= count,
                count == (header.length - 36) as int / 4,
                36 + 4 * count <= bytes@.len(),
                tables@.len() == k,
                forall|j: int| 0 <= j < k ==> #[trigger] tables@[j] == le32_at(bytes@, 36 + 4 * j),
            decreases count - k,
        {
            tables.push(read_le32(bytes, 36 + 4 * k));
            k = k + 1;
        }
        Some(Rsdt { header, tables })
    }

    /// Index of the first subordinate table carrying `signature`, given
    /// the headers read at each of `tables`' pointers, in order.
    pub fn find_table(&self, headers: &Vec<Sdt>, signature: u32) -> (r: Option<usize>)
        requires
            headers@.len() == self.tables@.len(),
        ensures
            match r {
                Some(i) => i < headers@.len() && headers@[i as int].signature == signature
                    && forall|j: int| 0 <= j < i ==> headers@[j].signature != signature,
                None => forall|j: int|
                    0 <= j < headers@.len() ==> headers@[j].signature != signature,
            },
    {
        let n = headers.len();
        let mut i: usize = 0;
        while i < n
            invariant
                0 <= i <= n,
                n == headers@.len(),
                forall|j: int| 0 <= j < i ==> headers@[j].signature != signature,
            decreases n - i,
        {
            if headers[i].matches_signature(signature) {
                return Some(i);
            }
            i = i + 1;
        }
        None
    }
}

} // verus!
