use vstd::prelude::*;

verus! {

/// The reversed CRC-32 polynomial (CRC32B).
pub const CRC32B: u32 = 0xEDB8_8320u32;

/// One shift step of the table construction.
pub open spec fn crc_round(r: u32) -> u32 {
    if r & 1u32 == 1u32 {
        (r >> 1u32) ^ CRC32B
    } else {
        r >> 1u32
    }
}

/// `r` after `n` shift steps.
pub open spec fn crc_rounds(r: u32, n: nat) -> u32
    decreases n,
{
    if n == 0 {
        r
    } else {
        crc_round(crc_rounds(r, (n - 1) as nat))
    }
}

/// Entry `index` of the lookup table.
pub open spec fn crc_table_entry(index: int) -> i32 {
    crc_rounds(index as u32, 8) as i32
}

/// Whether `table` is the CRC32B lookup table.
pub open spec fn is_crc_table(table: Seq<i32>) -> bool {
    &&& table.len() == 256
    &&& forall|i: int| 0 <= i < 256 ==> #[trigger] table[i] == crc_table_entry(i)
}

/// The running checksum after one more byte.
pub open spec fn crc_step(table: Seq<i32>, crc: i32, b: u8) -> i32 {
    (crc >> 8i32) ^ table[((crc ^ (b as i32)) & 0xFFi32) as int]
}

/// The running checksum (before the final inversion) over `bytes`, starting from 0.
pub open spec fn crc_fold(table: Seq<i32>, bytes: Seq<u8>) -> i32
    decreases bytes.len(),
{
    if bytes.len() == 0 {
        0
    } else {
        crc_step(table, crc_fold(table, bytes.drop_last()), bytes.last())
    }
}

/// The checksum `get_crc(src, offset, length)` returns: bytes `offset` up to (not
/// including) index `length` folded through the table, then inverted.
pub open spec fn crc_of(table: Seq<i32>, src: Seq<u8>, offset: int, length: int) -> i32 {
    if offset < length {
        !crc_fold(table, src.subrange(offset, length))
    } else {
        !0i32
    }
}

/// A table-driven cyclic redundancy check.
pub struct CRC {
    pub table: Vec<i32>,
}

impl CRC {
    /// Builds the CRC32B lookup table.
    pub fn new() -> (c: CRC)
        ensures
            is_crc_table(c.table@),
    {
        let mut table: Vec<i32> = Vec::with_capacity(256);
        let mut index: u32 = 0;
        while index < 256
            invariant
                index <= 256,
                table@.len() == index,
                forall|i: int| 0 <= i < index ==> #[trigger] table@[i] == crc_table_entry(i),
            decreases 256 - index,
        {
            let mut remainder: u32 = index;
            let mut k: u32 = 0;
            while k < 8
                invariant
                    k <= 8,
                    remainder == crc_rounds(index, k as nat),
                decreases 8 - k,
            {
                if remainder & 0x1u32 == 1u32 {
                    remainder = (remainder >> 1u32) ^ CRC32B;
                } else {
                    remainder = remainder >> 1u32;
                }
                k += 1;
            }
            table.push(remainder as i32);
            index += 1;
        }
        CRC { table }
    }

    /// The checksum of `src[offset..length]` (the second bound is an index, not a count).
    pub fn get_crc(&self, src: &Vec<u8>, offset: usize, length: usize) -> (r: i32)
        requires
            self.table@.len() == 256,
            offset < length ==> length <= src@.len(),
        ensures
            r == crc_of(self.table@, src@, offset as int, length as int),
    {
        let mut crc: i32 = 0;
        if offset >= length {
            return !crc;
        }
        let mut i = offset;
        assert(src@.subrange(offset as int, i as int) =~= Seq::<u8>::empty());
        while i < length
            invariant
                offset <= i <= length,
                self.table@.len() == 256,
                length <= src@.len(),
                crc == crc_fold(self.table@, src@.subrange(offset as int, i as int)),
            decreases length - i,
        {
            let b = src[i];
            let x = (crc ^ (b as i32)) & 0xFFi32;
            assert(0 <= x < 256) by (bit_vector)
                requires
                    x == (crc ^ (b as i32)) & 0xFFi32,
            ;
            proof {
                let s = src@.subrange(offset as int, i + 1);
                assert(s.drop_last() =~= src@.subrange(offset as int, i as int));
            }
            crc = (crc >> 8i32) ^ self.table[x as usize];
            i += 1;
        }
        !crc
    }
}

} // verus!
