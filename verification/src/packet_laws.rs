use vstd::prelude::*;
use vstd::utf8::*;
use crate::packet::{
    be16, be16_bytes, be24, be24_bytes, be32, be32_bytes, be64, be64_bytes, g1_at, g2_at,
    g3_at, g4_at, g8s_at, gbytes_at, gjstr_at, gjstr_pos, gsmart_at, gsmart_pos, gsmarts_at,
    ig2s_at, ig4s_at, is_first_terminator, jstr_bytes, le16_bytes, le32_bytes, pad_to,
    pos_after, put_byte, put_bytes, terminator_index,
};

verus! {

proof fn lemma_put_bytes_reads(data: Seq<u8>, pos: int, bytes: Seq<u8>)
    requires
        0 <= pos,
    ensures
        put_bytes(data, pos, bytes).len() >= pos + bytes.len(),
        forall|i: int|
            0 <= i < bytes.len() ==> #[trigger] put_bytes(data, pos, bytes)[pos + i] == bytes[i],
        put_bytes(data, pos, bytes).subrange(pos, pos + bytes.len()) =~= bytes,
{
    let padded = pad_to(data, pos + bytes.len());
    assert(padded.len() >= pos + bytes.len());
    let r = put_bytes(data, pos, bytes);
    assert forall|i: int| 0 <= i < bytes.len() implies #[trigger] r[pos + i] == bytes[i] by {
        assert(r[pos + i] == (padded.take(pos) + bytes)[pos + i]);
    }
}

/// A 16-bit value written big-endian by `p2` is read back by `g2` (as its low 16 bits).
pub proof fn law_p2_then_g2(data: Seq<u8>, pos: int, v: i32)
    requires
        0 <= pos,
    ensures
        g2_at(put_bytes(data, pos, be16_bytes(v)), pos) == v as u16,
        pos_after(put_bytes(data, pos, be16_bytes(v)), pos, 2) == pos + 2,
{
    lemma_put_bytes_reads(data, pos, be16_bytes(v));
    let d = put_bytes(data, pos, be16_bytes(v));
    assert(d[pos + 0] == be16_bytes(v)[0]);
    assert(d[pos + 1] == be16_bytes(v)[1]);
    let w = v as u16;
    assert(be16(((w >> 8u16) as u8), (w as u8)) == w) by (bit_vector);
}

/// The signed reading `g2s` of what `p2` wrote is the value's low 16 bits as a signed number.
pub proof fn law_p2_then_g2s(data: Seq<u8>, pos: int, v: i32)
    requires
        0 <= pos,
    ensures
        g2_at(put_bytes(data, pos, be16_bytes(v)), pos) as i16 == v as i16,
        pos_after(put_bytes(data, pos, be16_bytes(v)), pos, 2) == pos + 2,
{
    law_p2_then_g2(data, pos, v);
    assert((v as u16) as i16 == v as i16) by (bit_vector);
}

/// A 16-bit value written little-endian by `ip2` is read back by `ig2s`.
pub proof fn law_ip2_then_ig2s(data: Seq<u8>, pos: int, v: i32)
    requires
        0 <= pos,
    ensures
        ig2s_at(put_bytes(data, pos, le16_bytes(v)), pos) == v as i16,
{
    lemma_put_bytes_reads(data, pos, le16_bytes(v));
    let d = put_bytes(data, pos, le16_bytes(v));
    assert(d[pos + 0] == le16_bytes(v)[0]);
    assert(d[pos + 1] == le16_bytes(v)[1]);
    let w = v as u16;
    assert(be16(((w >> 8u16) as u8), (w as u8)) as i16 == v as i16) by (bit_vector)
        requires
            w == v as u16,
    ;
}

/// A 24-bit value written by `p3` is read back by `g3` (as its low 24 bits).
pub proof fn law_p3_then_g3(data: Seq<u8>, pos: int, v: i32)
    requires
        0 <= pos,
    ensures
        g3_at(put_bytes(data, pos, be24_bytes(v)), pos) == ((v as u32) & 0xFF_FFFFu32) as i32,
{
    lemma_put_bytes_reads(data, pos, be24_bytes(v));
    let d = put_bytes(data, pos, be24_bytes(v));
    assert(d[pos + 0] == be24_bytes(v)[0]);
    assert(d[pos + 1] == be24_bytes(v)[1]);
    assert(d[pos + 2] == be24_bytes(v)[2]);
    let w = v as u16;
    assert(be24(((v >> 16i32) as u8), ((w >> 8u16) as u8), (w as u8)) as i32 == ((v as u32)
        & 0xFF_FFFFu32) as i32) by (bit_vector)
        requires
            w == v as u16,
    ;
}

/// A 32-bit value written big-endian by `p4` is read back by `g4` and `g4s`.
pub proof fn law_p4_then_g4(data: Seq<u8>, pos: int, v: i32)
    requires
        0 <= pos,
    ensures
        g4_at(put_bytes(data, pos, be32_bytes(v)), pos) == v,
{
    lemma_put_bytes_reads(data, pos, be32_bytes(v));
    let d = put_bytes(data, pos, be32_bytes(v));
    assert(d[pos + 0] == be32_bytes(v)[0]);
    assert(d[pos + 1] == be32_bytes(v)[1]);
    assert(d[pos + 2] == be32_bytes(v)[2]);
    assert(d[pos + 3] == be32_bytes(v)[3]);
    assert(be32(
        ((v >> 24i32) as u8),
        ((v >> 16i32) as u8),
        ((v >> 8i32) as u8),
        (v as u8),
    ) as i32 == v) by (bit_vector);
}

/// A 32-bit value written little-endian by `ip4` is read back by `ig4s`.
pub proof fn law_ip4_then_ig4s(data: Seq<u8>, pos: int, v: i32)
    requires
        0 <= pos,
    ensures
        ig4s_at(put_bytes(data, pos, le32_bytes(v)), pos) == v,
{
    lemma_put_bytes_reads(data, pos, le32_bytes(v));
    let d = put_bytes(data, pos, le32_bytes(v));
    assert(d[pos + 0] == le32_bytes(v)[0]);
    assert(d[pos + 1] == le32_bytes(v)[1]);
    assert(d[pos + 2] == le32_bytes(v)[2]);
    assert(d[pos + 3] == le32_bytes(v)[3]);
    assert(be32(
        ((v >> 24i32) as u8),
        ((v >> 16i32) as u8),
        ((v >> 8i32) as u8),
        (v as u8),
    ) as i32 == v) by (bit_vector);
}

/// A 64-bit value written by `p8` is read back by `g8s`.
pub proof fn law_p8_then_g8s(data: Seq<u8>, pos: int, v: i64)
    requires
        0 <= pos,
    ensures
        g8s_at(put_bytes(data, pos, be64_bytes(v)), pos) == v,
{
    lemma_put_bytes_reads(data, pos, be64_bytes(v));
    let d = put_bytes(data, pos, be64_bytes(v));
    let b = be64_bytes(v);
    assert(d.subrange(pos, pos + 8) =~= b);
    let b0 = (v >> 56i64) as u8;
    let b1 = (v >> 48i64) as u8;
    let b2 = (v >> 40i64) as u8;
    let b3 = (v >> 32i64) as u8;
    let b4 = (v >> 24i64) as u8;
    let b5 = (v >> 16i64) as u8;
    let b6 = (v >> 8i64) as u8;
    let b7 = v as u8;
    assert((((b0 as u64) << 56u64) | ((b1 as u64) << 48u64) | ((b2 as u64) << 40u64) | ((
    b3 as u64) << 32u64) | ((b4 as u64) << 24u64) | ((b5 as u64) << 16u64) | ((b6 as u64)
        << 8u64) | (b7 as u64)) as i64 == v) by (bit_vector)
        requires
            b0 == (v >> 56i64) as u8,
            b1 == (v >> 48i64) as u8,
            b2 == (v >> 40i64) as u8,
            b3 == (v >> 32i64) as u8,
            b4 == (v >> 24i64) as u8,
            b5 == (v >> 16i64) as u8,
            b6 == (v >> 8i64) as u8,
            b7 == v as u8,
    ;
    assert(be64(b) == (((b0 as u64) << 56u64) | ((b1 as u64) << 48u64) | ((b2 as u64)
        << 40u64) | ((b3 as u64) << 32u64) | ((b4 as u64) << 24u64) | ((b5 as u64) << 16u64)
        | ((b6 as u64) << 8u64) | (b7 as u64)));
}

/// A byte written by `p1` at or before the end of the buffer is read back by `g1`.
pub proof fn law_p1_then_g1(data: Seq<u8>, pos: int, v: i32)
    requires
        0 <= pos <= data.len(),
    ensures
        g1_at(put_byte(data, pos, v as u8), pos) == v as u8,
{
}

/// A value written by `psmart` at or before the end of the buffer is read back by
/// `gsmart`, and the cursor ends just after it.
pub proof fn law_psmart_then_gsmart(data: Seq<u8>, pos: int, v: i32)
    requires
        0 <= pos <= data.len(),
        0 <= v < 32768,
    ensures
        ({
            let written = if v < 128 {
                put_byte(data, pos, v as u8)
            } else {
                put_bytes(data, pos, be16_bytes((v + 32768) as i32))
            };
            let width = if v < 128 {
                1int
            } else {
                2int
            };
            &&& gsmart_at(written, pos) == v
            &&& gsmart_pos(written, pos) == pos + width
        }),
{
    if v < 128 {
        let d = put_byte(data, pos, v as u8);
        assert(d[pos] == v as u8);
        assert((v as u8) < 128 && (v as u8) as i32 == v) by (bit_vector)
            requires
                0 <= v < 128,
        ;
    } else {
        let w = (v + 32768) as i32;
        law_p2_then_g2(data, pos, w);
        lemma_put_bytes_reads(data, pos, be16_bytes(w));
        let d = put_bytes(data, pos, be16_bytes(w));
        assert(d[pos + 0] == be16_bytes(w)[0]);
        let x = w as u16;
        assert(((x >> 8u16) as u8) >= 128 && x as i32 - 32768 == v) by (bit_vector)
            requires
                128 <= v < 32768,
                w == v + 32768,
                x == w as u16,
        ;
    }
}

/// A value written by `psmarts` at or before the end of the buffer is read back by
/// `gsmarts`, and the cursor ends just after it.
pub proof fn law_psmarts_then_gsmarts(data: Seq<u8>, pos: int, v: i32)
    requires
        0 <= pos <= data.len(),
        -16384 <= v < 16384,
    ensures
        ({
            let small = -64 <= v < 64;
            let written = if small {
                put_byte(data, pos, (v + 64) as u8)
            } else {
                put_bytes(data, pos, be16_bytes((v + 49152) as i32))
            };
            let width = if small {
                1int
            } else {
                2int
            };
            &&& gsmarts_at(written, pos) == v
            &&& gsmart_pos(written, pos) == pos + width
        }),
{
    if -64 <= v < 64 {
        let d = put_byte(data, pos, (v + 64) as u8);
        assert(d[pos] == (v + 64) as u8);
        let w = (v + 64) as i32;
        assert((w as u8) < 128 && (w as u8) as i32 - 64 == v) by (bit_vector)
            requires
                -64 <= v < 64,
                w == v + 64,
        ;
    } else {
        let w = (v + 49152) as i32;
        law_p2_then_g2(data, pos, w);
        lemma_put_bytes_reads(data, pos, be16_bytes(w));
        let d = put_bytes(data, pos, be16_bytes(w));
        assert(d[pos + 0] == be16_bytes(w)[0]);
        let x = w as u16;
        assert(((x >> 8u16) as u8) >= 128 && x as i32 - 49152 == v) by (bit_vector)
            requires
                -16384 <= v < 16384,
                !(-64 <= v < 64),
                w == v + 49152,
                x == w as u16,
        ;
    }
}

/// Bytes written by `pbytes` are read back by `gbytes`.
pub proof fn law_pbytes_then_gbytes(data: Seq<u8>, pos: int, bytes: Seq<u8>)
    requires
        0 <= pos,
    ensures
        gbytes_at(put_bytes(data, pos, bytes), pos, bytes.len() as int) == bytes,
        pos_after(put_bytes(data, pos, bytes), pos, bytes.len() as int) == pos + bytes.len(),
{
    lemma_put_bytes_reads(data, pos, bytes);
}

proof fn lemma_scalar_avoids_ascii(c: u32, t: u8)
    requires
        t < 0x80,
        c != t as u32,
    ensures
        forall|i: int| 0 <= i < encode_scalar(c).len() ==> #[trigger] encode_scalar(c)[i] != t,
{
    if has_width_1_encoding(c) {
        assert(leading_byte_width_1(c) != t) by (bit_vector)
            requires
                c <= 0x7F,
                c != t as u32,
                t < 0x80,
        ;
    } else {
        assert(leading_byte_width_2(c) >= 0x80) by (bit_vector);
        assert(leading_byte_width_3(c) >= 0x80) by (bit_vector);
        assert(leading_byte_width_4(c) >= 0x80) by (bit_vector);
        assert(last_continuation_byte(c) >= 0x80) by (bit_vector);
        assert(second_last_continuation_byte(c) >= 0x80) by (bit_vector);
        assert(third_last_continuation_byte(c) >= 0x80) by (bit_vector);
    }
}

proof fn lemma_encoding_avoids_ascii(s: Seq<char>, t: u8)
    requires
        t < 0x80,
        forall|i: int| 0 <= i < s.len() ==> (#[trigger] s[i]) as u32 != t as u32,
    ensures
        forall|i: int| 0 <= i < encode_utf8(s).len() ==> #[trigger] encode_utf8(s)[i] != t,
    decreases s.len(),
{
    if s.len() > 0 {
        let head = encode_scalar(s[0] as u32);
        let rest = s.drop_first();
        assert forall|i: int| 0 <= i < rest.len() implies (#[trigger] rest[i]) as u32
            != t as u32 by {
            assert(rest[i] == s[i + 1]);
        }
        lemma_encoding_avoids_ascii(rest, t);
        lemma_scalar_avoids_ascii(s[0] as u32, t);
        let e = encode_utf8(s);
        assert(e == head + encode_utf8(rest));
        assert forall|i: int| 0 <= i < e.len() implies #[trigger] e[i] != t by {
            if i < head.len() {
                assert(e[i] == head[i]);
            } else {
                assert(e[i] == encode_utf8(rest)[i - head.len()]);
            }
        }
    }
}

/// A string written by `pjstr` with an ASCII terminator that the string does not contain is
/// read back by `gjstr`, which leaves the cursor just after the terminator.
pub proof fn law_pjstr_then_gjstr(data: Seq<u8>, pos: int, s: Seq<char>, t: u8)
    requires
        0 <= pos,
        t < 0x80,
        forall|i: int| 0 <= i < s.len() ==> (#[trigger] s[i]) as u32 != t as u32,
    ensures
        gjstr_at(put_bytes(data, pos, jstr_bytes(s, t)), pos, t) == s,
        gjstr_pos(put_bytes(data, pos, jstr_bytes(s, t)), pos, t) == pos + encode_utf8(s).len()
            + 1,
{
    let enc = encode_utf8(s);
    let bytes = jstr_bytes(s, t);
    let d = put_bytes(data, pos, bytes);
    let end = pos + enc.len();
    lemma_put_bytes_reads(data, pos, bytes);
    lemma_encoding_avoids_ascii(s, t);
    assert(d[pos + enc.len()] == bytes[enc.len() as int]);
    assert forall|i: int| pos <= i < end implies d[i] != t by {
        assert(d[pos + (i - pos)] == bytes[i - pos]);
        assert(bytes[i - pos] == enc[i - pos]);
    }
    assert(is_first_terminator(d, pos, end, t));
    let e = terminator_index(d, pos, t);
    if e < end {
        assert(d[e] != t);
    } else if e > end {
        assert(d[end] != t);
    }
    assert(d.subrange(pos, end) =~= enc) by {
        assert forall|i: int| 0 <= i < enc.len() implies d.subrange(pos, end)[i] == enc[i] by {
            assert(d[pos + i] == bytes[i]);
        }
    }
    encode_utf8_valid_utf8(s);
    encode_utf8_decode_utf8(s);
}

} // verus!
