use vstd::prelude::*;
use vstd::slice::slice_subrange;
use vstd::slice::slice_to_vec;
use vstd::utf8::decode_utf8;
use vstd::utf8::valid_utf8;
use vstd::string::StringSliceAdditionalSpecFns;

verus! {

// ---------------------------------------------------------------------------
// Byte-level model of writing
// ---------------------------------------------------------------------------

/// `data` extended with zero bytes so that it is at least `n` bytes long.
pub open spec fn pad_to(data: Seq<u8>, n: int) -> Seq<u8> {
    if data.len() < n {
        data + Seq::new((n - data.len()) as nat, |i: int| 0u8)
    } else {
        data
    }
}

/// `data` after writing `bytes` starting at `pos`, growing it with zeros when it is too short.
pub open spec fn put_bytes(data: Seq<u8>, pos: int, bytes: Seq<u8>) -> Seq<u8> {
    let padded = pad_to(data, pos + bytes.len());
    padded.take(pos) + bytes + padded.skip(pos + bytes.len())
}

/// What `p1` does to the buffer: overwrite in place, or append when the cursor is at or past the end.
pub open spec fn put_byte(data: Seq<u8>, pos: int, b: u8) -> Seq<u8> {
    if pos >= data.len() {
        data.push(b)
    } else {
        data.update(pos, b)
    }
}

/// Big-endian encoding of the low 16 bits of `v`.
pub open spec fn be16_bytes(v: i32) -> Seq<u8> {
    seq![((v as u16) >> 8u16) as u8, (v as u16) as u8]
}

/// Little-endian encoding of the low 16 bits of `v`.
pub open spec fn le16_bytes(v: i32) -> Seq<u8> {
    seq![(v as u16) as u8, ((v as u16) >> 8u16) as u8]
}

/// Big-endian encoding of the low 24 bits of `v`.
pub open spec fn be24_bytes(v: i32) -> Seq<u8> {
    seq![(v >> 16i32) as u8, ((v as u16) >> 8u16) as u8, (v as u16) as u8]
}

/// Big-endian encoding of `v`.
pub open spec fn be32_bytes(v: i32) -> Seq<u8> {
    seq![(v >> 24i32) as u8, (v >> 16i32) as u8, (v >> 8i32) as u8, v as u8]
}

/// Little-endian encoding of `v`.
pub open spec fn le32_bytes(v: i32) -> Seq<u8> {
    seq![v as u8, (v >> 8i32) as u8, (v >> 16i32) as u8, (v >> 24i32) as u8]
}

/// Big-endian encoding of `v`.
pub open spec fn be64_bytes(v: i64) -> Seq<u8> {
    seq![
        (v >> 56i64) as u8,
        (v >> 48i64) as u8,
        (v >> 40i64) as u8,
        (v >> 32i64) as u8,
        (v >> 24i64) as u8,
        (v >> 16i64) as u8,
        (v >> 8i64) as u8,
        v as u8,
    ]
}

/// The bytes of the UTF-8 encoding of `s` followed by `terminator`.
pub open spec fn jstr_bytes(s: Seq<char>, terminator: u8) -> Seq<u8> {
    vstd::utf8::encode_utf8(s).push(terminator)
}

// ---------------------------------------------------------------------------
// Byte-level model of reading
// ---------------------------------------------------------------------------

/// Unsigned big-endian value of two bytes.
pub open spec fn be16(b0: u8, b1: u8) -> u16 {
    ((b0 as u16) << 8u16) | (b1 as u16)
}

/// Unsigned big-endian value of three bytes.
pub open spec fn be24(b0: u8, b1: u8, b2: u8) -> u32 {
    ((b0 as u32) << 16u32) | (be16(b1, b2) as u32)
}

/// Unsigned big-endian value of four bytes.
pub open spec fn be32(b0: u8, b1: u8, b2: u8, b3: u8) -> u32 {
    ((b0 as u32) << 24u32) | ((b1 as u32) << 16u32) | ((b2 as u32) << 8u32) | (b3 as u32)
}

/// Unsigned big-endian value of eight bytes.
pub open spec fn be64(b: Seq<u8>) -> u64 {
    ((b[0] as u64) << 56u64) | ((b[1] as u64) << 48u64) | ((b[2] as u64) << 40u64) | ((
    b[3] as u64) << 32u64) | ((b[4] as u64) << 24u64) | ((b[5] as u64) << 16u64) | ((
    b[6] as u64) << 8u64) | (b[7] as u64)
}

/// Whether `n` more bytes can be read at `pos`.
pub open spec fn fits(data: Seq<u8>, pos: int, n: int) -> bool {
    pos + n <= data.len()
}

/// Writing at the end of the buffer appends.
pub proof fn lemma_put_at_end(data: Seq<u8>, bytes: Seq<u8>)
    ensures
        put_bytes(data, data.len() as int, bytes) == data + bytes,
        put_byte(data, data.len() as int, 0u8) == data.push(0u8),
{
    let padded = pad_to(data, (data.len() + bytes.len()) as int);
    if bytes.len() > 0 {
        assert(padded.len() == data.len() + bytes.len());
    }
    assert(padded.take(data.len() as int) =~= data);
    assert(padded.skip((data.len() + bytes.len()) as int) =~= Seq::<u8>::empty());
    assert(put_bytes(data, data.len() as int, bytes) =~= data + bytes);
}

/// The value `g1` returns.
pub open spec fn g1_at(data: Seq<u8>, pos: int) -> u8 {
    if pos >= data.len() {
        0
    } else {
        data[pos]
    }
}

/// The value `g2` returns.
pub open spec fn g2_at(data: Seq<u8>, pos: int) -> u16 {
    if !fits(data, pos, 2) {
        0
    } else {
        be16(data[pos], data[pos + 1])
    }
}

/// The value `ig2s` returns.
pub open spec fn ig2s_at(data: Seq<u8>, pos: int) -> i16 {
    if !fits(data, pos, 2) {
        0
    } else {
        be16(data[pos + 1], data[pos]) as i16
    }
}

/// The value `g3` returns.
pub open spec fn g3_at(data: Seq<u8>, pos: int) -> i32 {
    if !fits(data, pos, 3) {
        0
    } else {
        be24(data[pos], data[pos + 1], data[pos + 2]) as i32
    }
}

/// The value `g4` (and `g4s`) returns.
pub open spec fn g4_at(data: Seq<u8>, pos: int) -> i32 {
    if !fits(data, pos, 4) {
        0
    } else {
        be32(data[pos], data[pos + 1], data[pos + 2], data[pos + 3]) as i32
    }
}

/// The value `ig4s` returns.
pub open spec fn ig4s_at(data: Seq<u8>, pos: int) -> i32 {
    if !fits(data, pos, 4) {
        0
    } else {
        be32(data[pos + 3], data[pos + 2], data[pos + 1], data[pos]) as i32
    }
}

/// The value `g8s` returns.
pub open spec fn g8s_at(data: Seq<u8>, pos: int) -> i64 {
    if !fits(data, pos, 8) {
        0
    } else {
        be64(data.subrange(pos, pos + 8)) as i64
    }
}

/// The cursor after a fixed-width read of `n` bytes: advanced, or moved to the end when
/// the bytes are not all there.
pub open spec fn pos_after(data: Seq<u8>, pos: int, n: int) -> int {
    if fits(data, pos, n) {
        pos + n
    } else {
        data.len() as int
    }
}

/// The value `gsmart` returns.
pub open spec fn gsmart_at(data: Seq<u8>, pos: int) -> i32 {
    if pos >= data.len() {
        0
    } else if data[pos] < 128 {
        data[pos] as i32
    } else {
        (g2_at(data, pos) as i32 - 32768) as i32
    }
}

/// The cursor after `gsmart` (and `gsmarts`).
pub open spec fn gsmart_pos(data: Seq<u8>, pos: int) -> int {
    if pos >= data.len() {
        pos
    } else if data[pos] < 128 {
        pos + 1
    } else {
        pos_after(data, pos, 2)
    }
}

/// The value `gsmarts` returns.
pub open spec fn gsmarts_at(data: Seq<u8>, pos: int) -> i32 {
    if pos >= data.len() {
        0
    } else if data[pos] < 128 {
        (data[pos] as i32 - 64) as i32
    } else {
        (g2_at(data, pos) as i32 - 49152) as i32
    }
}

/// Whether `data[i] == t` for no `i` in `[from, to)`.
pub open spec fn no_byte_in(data: Seq<u8>, from: int, to: int, t: u8) -> bool {
    forall|i: int| from <= i < to ==> data[i] != t
}

/// Whether `end` is the index of the first `t` at or after `pos`.
pub open spec fn is_first_terminator(data: Seq<u8>, pos: int, end: int, t: u8) -> bool {
    &&& pos <= end < data.len()
    &&& data[end] == t
    &&& no_byte_in(data, pos, end, t)
}

/// Whether a terminated string can be read at `pos`.
pub open spec fn has_terminator(data: Seq<u8>, pos: int, t: u8) -> bool {
    exists|end: int| is_first_terminator(data, pos, end, t)
}

/// The index of the first `t` at or after `pos` (meaningful when `has_terminator`).
pub open spec fn terminator_index(data: Seq<u8>, pos: int, t: u8) -> int {
    choose|end: int| is_first_terminator(data, pos, end, t)
}

/// The string `gjstr` returns: the decoded bytes before the terminator, or empty when
/// there is no terminator or the bytes are not valid UTF-8.
pub open spec fn gjstr_at(data: Seq<u8>, pos: int, t: u8) -> Seq<char> {
    if has_terminator(data, pos, t) {
        let bytes = data.subrange(pos, terminator_index(data, pos, t));
        if valid_utf8(bytes) {
            decode_utf8(bytes)
        } else {
            Seq::empty()
        }
    } else {
        Seq::empty()
    }
}

/// The cursor after `gjstr`.
pub open spec fn gjstr_pos(data: Seq<u8>, pos: int, t: u8) -> int {
    if has_terminator(data, pos, t) {
        terminator_index(data, pos, t) + 1
    } else {
        data.len() as int
    }
}

/// The bytes `gbytes(length)` returns.
pub open spec fn gbytes_at(data: Seq<u8>, pos: int, length: int) -> Seq<u8> {
    if fits(data, pos, length) {
        data.subrange(pos, pos + length)
    } else if pos < data.len() {
        data.subrange(pos, data.len() as int)
    } else {
        Seq::empty()
    }
}

/// Calls `std::str::from_utf8` on the bytes and copies the result into a `String`.
/// Claims what the standard library documents: `Some` exactly when the bytes are valid
/// UTF-8, holding the characters they encode.
#[verifier::external_body]
fn utf8_to_string(bytes: &[u8]) -> (res: Option<String>)
    ensures
        res is Some <==> valid_utf8(bytes@),
        res matches Some(s) ==> s@ == decode_utf8(bytes@),
{
    match std::str::from_utf8(bytes) {
        Ok(s) => Some(s.to_owned()),
        Err(_) => None,
    }
}

/// A growable byte buffer with a read/write cursor, used to build and parse
/// network messages and cache files.
pub struct Packet {
    pub data: Vec<u8>,
    pub position: usize,
    pub bit_position: usize,
}

impl Packet {
    /// Creates an empty packet whose buffer has room reserved for `size` bytes.
    pub fn new(size: usize) -> (p: Packet)
        ensures
            p.data@ == Seq::<u8>::empty(),
            p.position == 0,
            p.bit_position == 0,
    {
        Packet { data: Vec::with_capacity(size), position: 0, bit_position: 0 }
    }

    /// Creates a packet that reads from (and writes over) `data`.
    pub fn from(data: Vec<u8>) -> (p: Packet)
        ensures
            p.data@ == data@,
            p.position == 0,
            p.bit_position == 0,
    {
        Packet { data, position: 0, bit_position: 0 }
    }

    /// The number of bytes between the cursor and the end of the buffer.
    pub fn remaining(&self) -> (r: i32)
        requires
            self.position <= self.data@.len(),
        ensures
            r == (self.data@.len() - self.position) as i32,
    {
        (self.data.len() - self.position) as i32
    }

    /// The number of bytes held.
    pub fn len(&self) -> (n: usize)
        ensures
            n == self.data@.len(),
    {
        self.data.len()
    }

    /// Whether no bytes are held.
    pub fn is_empty(&self) -> (b: bool)
        ensures
            b == (self.data@.len() == 0),
    {
        self.data.len() == 0
    }

    /// Writes `bytes` at the cursor, growing the buffer with zeros where it is too short,
    /// and moves the cursor past them.
    fn put_slice(&mut self, bytes: &[u8])
        requires
            old(self).position + bytes@.len() <= usize::MAX,
        ensures
            final(self).data@ == put_bytes(old(self).data@, old(self).position as int, bytes@),
            final(self).position == old(self).position + bytes@.len(),
            final(self).bit_position == old(self).bit_position,
    {
        let required_len = self.position + bytes.len();
        if self.data.len() < required_len {
            self.data.resize(required_len, 0u8);
        }
        let ghost padded = pad_to(old(self).data@, required_len as int);
        assert(self.data@ =~= padded);
        let start = self.position;
        let mut i: usize = 0;
        while i < bytes.len()
            invariant
                start == old(self).position,
                self.bit_position == old(self).bit_position,
                required_len == start + bytes@.len(),
                padded == pad_to(old(self).data@, required_len as int),
                self.data@.len() == padded.len(),
                padded.len() >= required_len,
                i <= bytes@.len(),
                forall|j: int|
                    0 <= j < self.data@.len() ==> #[trigger] self.data@[j] == if start <= j < start
                        + i {
                        bytes@[j - start]
                    } else {
                        padded[j]
                    },
            decreases bytes@.len() - i,
        {
            self.data.set(start + i, bytes[i]);
            i += 1;
        }
        self.position = required_len;
        assert(self.data@ =~= put_bytes(old(self).data@, start as int, bytes@));
    }

    /// Writes the low byte of `value` at the cursor (appending when the cursor is at or
    /// past the end) and advances the cursor by one.
    pub fn p1(&mut self, value: i32)
        requires
            old(self).position < usize::MAX,
        ensures
            final(self).data@ == put_byte(old(self).data@, old(self).position as int, value as u8),
            final(self).position == old(self).position + 1,
            final(self).bit_position == old(self).bit_position,
    {
        let value_byte = value as u8;
        if self.position >= self.data.len() {
            self.data.push(value_byte);
        } else {
            self.data.set(self.position, value_byte);
        }
        self.position += 1;
    }

    /// Writes the low 16 bits of `value`, big-endian.
    pub fn p2(&mut self, value: i32)
        requires
            old(self).position + 2 <= usize::MAX,
        ensures
            final(self).data@ == put_bytes(old(self).data@, old(self).position as int, be16_bytes(value)),
            final(self).position == old(self).position + 2,
            final(self).bit_position == old(self).bit_position,
    {
        let v = value as u16;
        let bytes = [(v >> 8u16) as u8, v as u8];
        assert(bytes@ =~= be16_bytes(value));
        self.put_slice(&bytes);
    }

    /// Writes the low 16 bits of `value`, little-endian.
    pub fn ip2(&mut self, value: i32)
        requires
            old(self).position + 2 <= usize::MAX,
        ensures
            final(self).data@ == put_bytes(old(self).data@, old(self).position as int, le16_bytes(value)),
            final(self).position == old(self).position + 2,
            final(self).bit_position == old(self).bit_position,
    {
        let v = value as u16;
        let bytes = [v as u8, (v >> 8u16) as u8];
        assert(bytes@ =~= le16_bytes(value));
        self.put_slice(&bytes);
    }

    /// Writes the low 24 bits of `value`, big-endian.
    pub fn p3(&mut self, value: i32)
        requires
            old(self).position + 3 <= usize::MAX,
        ensures
            final(self).data@ == put_bytes(old(self).data@, old(self).position as int, be24_bytes(value)),
            final(self).position == old(self).position + 3,
            final(self).bit_position == old(self).bit_position,
    {
        let v = value as u16;
        let bytes = [(value >> 16i32) as u8, (v >> 8u16) as u8, v as u8];
        assert(bytes@ =~= be24_bytes(value));
        self.put_slice(&bytes);
    }

    /// Writes `value`, big-endian.
    pub fn p4(&mut self, value: i32)
        requires
            old(self).position + 4 <= usize::MAX,
        ensures
            final(self).data@ == put_bytes(old(self).data@, old(self).position as int, be32_bytes(value)),
            final(self).position == old(self).position + 4,
            final(self).bit_position == old(self).bit_position,
    {
        let bytes = [
            (value >> 24i32) as u8,
            (value >> 16i32) as u8,
            (value >> 8i32) as u8,
            value as u8,
        ];
        assert(bytes@ =~= be32_bytes(value));
        self.put_slice(&bytes);
    }

    /// Writes `value`, little-endian.
    pub fn ip4(&mut self, value: i32)
        requires
            old(self).position + 4 <= usize::MAX,
        ensures
            final(self).data@ == put_bytes(old(self).data@, old(self).position as int, le32_bytes(value)),
            final(self).position == old(self).position + 4,
            final(self).bit_position == old(self).bit_position,
    {
        let bytes = [
            value as u8,
            (value >> 8i32) as u8,
            (value >> 16i32) as u8,
            (value >> 24i32) as u8,
        ];
        assert(bytes@ =~= le32_bytes(value));
        self.put_slice(&bytes);
    }

    /// Writes `value`, big-endian.
    pub fn p8(&mut self, value: i64)
        requires
            old(self).position + 8 <= usize::MAX,
        ensures
            final(self).data@ == put_bytes(old(self).data@, old(self).position as int, be64_bytes(value)),
            final(self).position == old(self).position + 8,
            final(self).bit_position == old(self).bit_position,
    {
        let bytes = [
            (value >> 56i64) as u8,
            (value >> 48i64) as u8,
            (value >> 40i64) as u8,
            (value >> 32i64) as u8,
            (value >> 24i64) as u8,
            (value >> 16i64) as u8,
            (value >> 8i64) as u8,
            value as u8,
        ];
        assert(bytes@ =~= be64_bytes(value));
        self.put_slice(&bytes);
    }

    /// Writes the UTF-8 bytes of `str` followed by `terminator`.
    pub fn pjstr(&mut self, str: &str, terminator: u8)
        requires
            old(self).position + str.spec_bytes().len() + 1 <= usize::MAX,
        ensures
            final(self).data@ == put_bytes(
                old(self).data@,
                old(self).position as int,
                jstr_bytes(str@, terminator),
            ),
            final(self).position == old(self).position + str.spec_bytes().len() + 1,
            final(self).bit_position == old(self).bit_position,
    {
        let b = str.as_bytes();
        let mut bytes = slice_to_vec(b);
        bytes.push(terminator);
        self.put_slice(bytes.as_slice());
    }

    /// Writes a zero byte, then `str` terminated by a zero byte.
    pub fn pjstr2(&mut self, str: &str)
        requires
            old(self).position + str.spec_bytes().len() + 2 <= usize::MAX,
        ensures
            final(self).data@ == put_bytes(
                put_byte(old(self).data@, old(self).position as int, 0u8),
                old(self).position + 1,
                jstr_bytes(str@, 0u8),
            ),
            final(self).position == old(self).position + str.spec_bytes().len() + 2,
            final(self).bit_position == old(self).bit_position,
    {
        self.p1(0);
        self.pjstr(str, 0);
    }

    /// Writes `value` in one byte when it is below 128, otherwise in two bytes with the
    /// top bit set.
    pub fn psmart(&mut self, value: i32)
        requires
            0 <= value < 32768,
            old(self).position + 2 <= usize::MAX,
        ensures
            value < 128 ==> final(self).data@ == put_byte(
                old(self).data@,
                old(self).position as int,
                value as u8,
            ) && final(self).position == old(self).position + 1,
            value >= 128 ==> final(self).data@ == put_bytes(
                old(self).data@,
                old(self).position as int,
                be16_bytes((value + 32768) as i32),
            ) && final(self).position == old(self).position + 2,
            final(self).bit_position == old(self).bit_position,
    {
        if value >= 0 && value < 128 {
            self.p1(value);
        } else {
            self.p2(value + 32768);
        }
    }

    /// Writes a signed `value` in one byte when it lies in `[-64, 64)`, otherwise in two
    /// bytes with the top bit set.
    pub fn psmarts(&mut self, value: i32)
        requires
            -16384 <= value < 16384,
            old(self).position + 2 <= usize::MAX,
        ensures
            -64 <= value < 64 ==> final(self).data@ == put_byte(
                old(self).data@,
                old(self).position as int,
                (value + 64) as u8,
            ) && final(self).position == old(self).position + 1,
            !(-64 <= value < 64) ==> final(self).data@ == put_bytes(
                old(self).data@,
                old(self).position as int,
                be16_bytes((value + 49152) as i32),
            ) && final(self).position == old(self).position + 2,
            final(self).bit_position == old(self).bit_position,
    {
        if value < 64 && value >= -64 {
            self.p1(value + 64);
        } else {
            self.p2(value + 49152);
        }
    }

    /// Writes `length` bytes of `src` starting at `offset`.
    pub fn pbytes(&mut self, src: &[u8], offset: usize, length: usize)
        requires
            offset + length <= src@.len(),
            old(self).position + length <= usize::MAX,
        ensures
            final(self).data@ == put_bytes(
                old(self).data@,
                old(self).position as int,
                src@.subrange(offset as int, offset + length),
            ),
            final(self).position == old(self).position + length,
            final(self).bit_position == old(self).bit_position,
    {
        let src_len = src.len();
        assert(offset + length <= src_len);
        let part = slice_subrange(src, offset, offset + length);
        self.put_slice(part);
    }

    /// Reads one unsigned byte; reads 0 and leaves the cursor alone past the end.
    pub fn g1(&mut self) -> (v: u8)
        requires
            old(self).position < usize::MAX,
        ensures
            v == g1_at(old(self).data@, old(self).position as int),
            final(self).position == if old(self).position >= old(self).data@.len() {
                old(self).position as int
            } else {
                old(self).position + 1
            },
            final(self).data@ == old(self).data@,
            final(self).bit_position == old(self).bit_position,
    {
        if self.position >= self.data.len() {
            return 0;
        }
        let value = self.data[self.position];
        self.position += 1;
        value
    }

    /// Reads one signed byte; reads 0 and leaves the cursor alone past the end.
    pub fn g1b(&mut self) -> (v: i8)
        requires
            old(self).position < usize::MAX,
        ensures
            v == g1_at(old(self).data@, old(self).position as int) as i8,
            final(self).position == if old(self).position >= old(self).data@.len() {
                old(self).position as int
            } else {
                old(self).position + 1
            },
            final(self).data@ == old(self).data@,
            final(self).bit_position == old(self).bit_position,
    {
        if self.position >= self.data.len() {
            return 0;
        }
        let value = self.data[self.position] as i8;
        self.position += 1;
        value
    }

    /// Reads an unsigned big-endian 16-bit value; reads 0 and moves to the end when fewer
    /// than two bytes remain.
    pub fn g2(&mut self) -> (v: u16)
        requires
            old(self).position + 2 <= usize::MAX,
        ensures
            v == g2_at(old(self).data@, old(self).position as int),
            final(self).position == pos_after(old(self).data@, old(self).position as int, 2),
            final(self).data@ == old(self).data@,
            final(self).bit_position == old(self).bit_position,
    {
        if self.position + 2 > self.data.len() {
            self.position = self.data.len();
            return 0;
        }
        let pos = self.position;
        self.position += 2;
        ((self.data[pos] as u16) << 8u16) | (self.data[pos + 1] as u16)
    }

    /// Reads a signed big-endian 16-bit value; reads 0 and moves to the end when fewer
    /// than two bytes remain.
    pub fn g2s(&mut self) -> (v: i16)
        requires
            old(self).position + 2 <= usize::MAX,
        ensures
            v == g2_at(old(self).data@, old(self).position as int) as i16,
            final(self).position == pos_after(old(self).data@, old(self).position as int, 2),
            final(self).data@ == old(self).data@,
            final(self).bit_position == old(self).bit_position,
    {
        if self.position + 2 > self.data.len() {
            self.position = self.data.len();
            return 0;
        }
        let pos = self.position;
        self.position += 2;
        (((self.data[pos] as u16) << 8u16) | (self.data[pos + 1] as u16)) as i16
    }

    /// Reads a signed little-endian 16-bit value; reads 0 and moves to the end when fewer
    /// than two bytes remain.
    pub fn ig2s(&mut self) -> (v: i16)
        requires
            old(self).position + 2 <= usize::MAX,
        ensures
            v == ig2s_at(old(self).data@, old(self).position as int),
            final(self).position == pos_after(old(self).data@, old(self).position as int, 2),
            final(self).data@ == old(self).data@,
            final(self).bit_position == old(self).bit_position,
    {
        if self.position + 2 > self.data.len() {
            self.position = self.data.len();
            return 0;
        }
        let pos = self.position;
        self.position += 2;
        (((self.data[pos + 1] as u16) << 8u16) | (self.data[pos] as u16)) as i16
    }

    /// Reads an unsigned big-endian 24-bit value; reads 0 and moves to the end when fewer
    /// than three bytes remain.
    pub fn g3(&mut self) -> (v: i32)
        requires
            old(self).position + 3 <= usize::MAX,
        ensures
            v == g3_at(old(self).data@, old(self).position as int),
            final(self).position == pos_after(old(self).data@, old(self).position as int, 3),
            final(self).data@ == old(self).data@,
            final(self).bit_position == old(self).bit_position,
    {
        if self.position + 3 > self.data.len() {
            self.position = self.data.len();
            return 0;
        }
        let pos = self.position;
        self.position += 3;
        let low = ((self.data[pos + 1] as u16) << 8u16) | (self.data[pos + 2] as u16);
        (((self.data[pos] as u32) << 16u32) | (low as u32)) as i32
    }

    /// Reads a big-endian 32-bit value; reads 0 and moves to the end when fewer than four
    /// bytes remain.
    pub fn g4(&mut self) -> (v: i32)
        requires
            old(self).position + 4 <= usize::MAX,
        ensures
            v == g4_at(old(self).data@, old(self).position as int),
            final(self).position == pos_after(old(self).data@, old(self).position as int, 4),
            final(self).data@ == old(self).data@,
            final(self).bit_position == old(self).bit_position,
    {
        if self.position + 4 > self.data.len() {
            self.position = self.data.len();
            return 0;
        }
        let pos = self.position;
        self.position += 4;
        (((self.data[pos] as u32) << 24u32) | ((self.data[pos + 1] as u32) << 16u32) | ((
        self.data[pos + 2] as u32) << 8u32) | (self.data[pos + 3] as u32)) as i32
    }

    /// Reads a big-endian 32-bit value; the same as `g4`.
    pub fn g4s(&mut self) -> (v: i32)
        requires
            old(self).position + 4 <= usize::MAX,
        ensures
            v == g4_at(old(self).data@, old(self).position as int),
            final(self).position == pos_after(old(self).data@, old(self).position as int, 4),
            final(self).data@ == old(self).data@,
            final(self).bit_position == old(self).bit_position,
    {
        self.g4()
    }

    /// Reads a little-endian 32-bit value; reads 0 and moves to the end when fewer than
    /// four bytes remain.
    pub fn ig4s(&mut self) -> (v: i32)
        requires
            old(self).position + 4 <= usize::MAX,
        ensures
            v == ig4s_at(old(self).data@, old(self).position as int),
            final(self).position == pos_after(old(self).data@, old(self).position as int, 4),
            final(self).data@ == old(self).data@,
            final(self).bit_position == old(self).bit_position,
    {
        if self.position + 4 > self.data.len() {
            self.position = self.data.len();
            return 0;
        }
        let pos = self.position;
        self.position += 4;
        (((self.data[pos + 3] as u32) << 24u32) | ((self.data[pos + 2] as u32) << 16u32) | ((
        self.data[pos + 1] as u32) << 8u32) | (self.data[pos] as u32)) as i32
    }

    /// Reads a big-endian 64-bit value; reads 0 and moves to the end when fewer than eight
    /// bytes remain.
    pub fn g8s(&mut self) -> (v: i64)
        requires
            old(self).position + 8 <= usize::MAX,
        ensures
            v == g8s_at(old(self).data@, old(self).position as int),
            final(self).position == pos_after(old(self).data@, old(self).position as int, 8),
            final(self).data@ == old(self).data@,
            final(self).bit_position == old(self).bit_position,
    {
        if self.position + 8 > self.data.len() {
            self.position = self.data.len();
            return 0;
        }
        let pos = self.position;
        self.position += 8;
        let d = &self.data;
        let v = ((d[pos] as u64) << 56u64) | ((d[pos + 1] as u64) << 48u64) | ((d[pos
            + 2] as u64) << 40u64) | ((d[pos + 3] as u64) << 32u64) | ((d[pos + 4] as u64)
            << 24u64) | ((d[pos + 5] as u64) << 16u64) | ((d[pos + 6] as u64) << 8u64) | (d[pos
            + 7] as u64);
        assert(v == be64(d@.subrange(pos as int, pos + 8)));
        v as i64
    }

    /// Reads the bytes up to the next `terminator` as a UTF-8 string and moves past the
    /// terminator. With no terminator it returns an empty string and moves to the end; with
    /// invalid UTF-8 it returns an empty string.
    pub fn gjstr(&mut self, terminator: u8) -> (s: String)
        requires
            old(self).data@.len() < usize::MAX,
        ensures
            s@ == gjstr_at(old(self).data@, old(self).position as int, terminator),
            final(self).position == gjstr_pos(old(self).data@, old(self).position as int, terminator),
            final(self).data@ == old(self).data@,
            final(self).bit_position == old(self).bit_position,
    {
        let pos = self.position;
        let mut length = pos;
        while length < self.data.len() && self.data[length] != terminator
            invariant
                pos <= length,
                pos == old(self).position,
                self.data@ == old(self).data@,
                no_byte_in(self.data@, pos as int, length as int, terminator),
            decreases self.data@.len() - length,
        {
            length += 1;
        }
        if length >= self.data.len() {
            proof {
                if has_terminator(self.data@, pos as int, terminator) {
                    let e = choose|end: int| is_first_terminator(self.data@, pos as int, end, terminator);
                    assert(self.data@[e] != terminator);
                }
            }
            self.position = self.data.len();
            return String::new();
        }
        proof {
            assert(is_first_terminator(self.data@, pos as int, length as int, terminator));
            let e = terminator_index(self.data@, pos as int, terminator);
            if e < length {
                assert(self.data@[e] != terminator);
            } else if e > length {
                assert(self.data@[length as int] != terminator);
            }
        }
        let part = slice_subrange(self.data.as_slice(), pos, length);
        let result = match utf8_to_string(part) {
            Some(s) => s,
            None => String::new(),
        };
        self.position = length + 1;
        result
    }

    /// Reads a value written by `psmart`.
    pub fn gsmart(&mut self) -> (v: i32)
        requires
            old(self).position + 2 <= usize::MAX,
        ensures
            v == gsmart_at(old(self).data@, old(self).position as int),
            final(self).position == gsmart_pos(old(self).data@, old(self).position as int),
            final(self).data@ == old(self).data@,
            final(self).bit_position == old(self).bit_position,
    {
        if self.position >= self.data.len() {
            return 0;
        }
        if self.data[self.position] < 128 {
            self.g1() as i32
        } else {
            self.g2() as i32 - 32768
        }
    }

    /// Reads a value written by `psmarts`.
    pub fn gsmarts(&mut self) -> (v: i32)
        requires
            old(self).position + 2 <= usize::MAX,
        ensures
            v == gsmarts_at(old(self).data@, old(self).position as int),
            final(self).position == gsmart_pos(old(self).data@, old(self).position as int),
            final(self).data@ == old(self).data@,
            final(self).bit_position == old(self).bit_position,
    {
        if self.position >= self.data.len() {
            return 0;
        }
        if self.data[self.position] < 128 {
            self.g1() as i32 - 64
        } else {
            self.g2() as i32 - 49152
        }
    }

    /// Reads `length` bytes; when fewer remain, returns what is left and moves to the end.
    pub fn gbytes(&mut self, length: usize) -> (v: Vec<u8>)
        requires
            old(self).position + length <= usize::MAX,
        ensures
            v@ == gbytes_at(old(self).data@, old(self).position as int, length as int),
            final(self).position == pos_after(old(self).data@, old(self).position as int, length as int),
            final(self).data@ == old(self).data@,
            final(self).bit_position == old(self).bit_position,
    {
        if self.position + length > self.data.len() {
            let result = if self.position < self.data.len() {
                slice_to_vec(slice_subrange(self.data.as_slice(), self.position, self.data.len()))
            } else {
                Vec::new()
            };
            self.position = self.data.len();
            return result;
        }
        let result = slice_to_vec(
            slice_subrange(self.data.as_slice(), self.position, self.position + length),
        );
        self.position += length;
        result
    }

    /// Moves the bit cursor to the byte cursor.
    pub fn bits(&mut self)
        requires
            old(self).position * 8 <= usize::MAX,
        ensures
            final(self).bit_position == old(self).position * 8,
            final(self).position == old(self).position,
            final(self).data@ == old(self).data@,
    {
        self.bit_position = self.position * 8;
    }

    /// Moves the byte cursor to the first whole byte at or after the bit cursor.
    pub fn bytes(&mut self)
        requires
            old(self).bit_position + 7 <= usize::MAX,
        ensures
            final(self).position == (old(self).bit_position + 7) / 8,
            final(self).bit_position == old(self).bit_position,
            final(self).data@ == old(self).data@,
    {
        self.position = (self.bit_position + 7) / 8;
    }
}

} // verus!
