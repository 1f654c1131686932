use vstd::prelude::*;
use crate::packet::{g1_at, g2_at, pos_after, Packet};
use crate::param_helper::readable;
use crate::script_file::g1_pos;

verus! {

/// A config type read from a cache file as a list of opcodes, each followed by its data.
pub trait ConfigType {
    /// Whether the opcode can be decoded into this value (an insertion it makes stays in range).
    spec fn decode_ok(&self, opcode: u8) -> bool;

    /// Whether every opcode of the list at `p` in `d` can be decoded into this value.
    spec fn type_ok(&self, d: Seq<u8>, p: int) -> bool;

    /// The identifier.
    fn id(&self) -> u32;

    /// The debug name, if any.
    fn debugname(&self) -> Option<&String>;

    /// Sets the debug name.
    fn set_debugname(&mut self, debugname: String);

    /// Reads the data of `opcode` from `packet` into this value.
    fn decode(&mut self, opcode: u8, packet: &mut Packet)
        requires
            readable(old(packet)),
            old(self).decode_ok(opcode),
        ensures
            final(packet).data@ == old(packet).data@,
            readable(final(packet)),
            final(packet).position >= old(packet).position,
    ;

    /// Reads opcodes and their data until opcode 0 or the end of `packet`, recording the
    /// opcodes (the final 0 included) in `opcode_order`.
    fn decode_type(&mut self, packet: &mut Packet, opcode_order: &mut Vec<u8>)
        requires
            readable(old(packet)),
            old(self).type_ok(old(packet).data@, old(packet).position as int),
        ensures
            final(packet).data@ == old(packet).data@,
    ;
}

/// Whether the read loop of `decode_type` goes on at `p`: `remaining()` is positive.
pub open spec fn more_to_read(d: Seq<u8>, p: int) -> bool {
    ((d.len() - p) as i32) > 0
}

/// `n` pairs of two-byte values read from `p` and inserted at positions `0..n` of `s` and `t`,
/// and the cursor.
pub open spec fn read_pairs(s: Seq<u16>, t: Seq<u16>, d: Seq<u8>, p: int, n: nat) -> (
    Seq<u16>,
    Seq<u16>,
    int,
)
    decreases n,
{
    if n == 0 {
        (s, t, p)
    } else {
        let (s1, t1, q) = read_pairs(s, t, d, p, (n - 1) as nat);
        let q1 = pos_after(d, q, 2);
        (s1.insert(n - 1, g2_at(d, q)), t1.insert(n - 1, g2_at(d, q1)), pos_after(d, q1, 2))
    }
}

/// `n` signed bytes read from `p` and inserted at positions `0..n` of `s`, and the cursor.
pub open spec fn read_signed_bytes(s: Seq<i8>, d: Seq<u8>, p: int, n: nat) -> (Seq<i8>, int)
    decreases n,
{
    if n == 0 {
        (s, p)
    } else {
        let (s1, q) = read_signed_bytes(s, d, p, (n - 1) as nat);
        (s1.insert(n - 1, g1_at(d, q) as i8), g1_pos(d, q))
    }
}

/// `n` two-byte values read from `p` and appended to `s`, and the cursor.
pub open spec fn read_u16s(s: Seq<u16>, d: Seq<u8>, p: int, n: nat) -> (Seq<u16>, int)
    decreases n,
{
    if n == 0 {
        (s, p)
    } else {
        let (s1, q) = read_u16s(s, d, p, (n - 1) as nat);
        (s1.push(g2_at(d, q)), pos_after(d, q, 2))
    }
}

/// Reads `count` pairs of two-byte values, inserting the `i`-th pair at position `i` of `s`
/// and `t`.
pub fn read_pairs_into(packet: &mut Packet, s: &mut Vec<u16>, t: &mut Vec<u16>, count: u8)
    requires
        readable(old(packet)),
    ensures
        (final(s)@, final(t)@, final(packet).position as int) == read_pairs(
            old(s)@,
            old(t)@,
            old(packet).data@,
            old(packet).position as int,
            count as nat,
        ),
        final(packet).data@ == old(packet).data@,
        readable(final(packet)),
        final(packet).position >= old(packet).position,
{
    let ghost d = packet.data@;
    let ghost p0 = packet.position as int;
    let ghost s0 = s@;
    let ghost t0 = t@;
    let mut i: u8 = 0;
    while i < count
        invariant
            packet.data@ == d,
            readable(packet),
            packet.position >= p0,
            i <= count,
            s@.len() == s0.len() + i,
            t@.len() == t0.len() + i,
            (s@, t@, packet.position as int) == read_pairs(s0, t0, d, p0, i as nat),
        decreases count - i,
    {
        let a = packet.g2();
        s.insert(i as usize, a);
        let b = packet.g2();
        t.insert(i as usize, b);
        i += 1;
    }
}

/// Reads `count` signed bytes, inserting the `i`-th at position `i` of `s`.
pub fn read_signed_bytes_into(packet: &mut Packet, s: &mut Vec<i8>, count: u8)
    requires
        readable(old(packet)),
    ensures
        (final(s)@, final(packet).position as int) == read_signed_bytes(
            old(s)@,
            old(packet).data@,
            old(packet).position as int,
            count as nat,
        ),
        final(packet).data@ == old(packet).data@,
        readable(final(packet)),
        final(packet).position >= old(packet).position,
{
    let ghost d = packet.data@;
    let ghost p0 = packet.position as int;
    let ghost s0 = s@;
    let mut i: u8 = 0;
    while i < count
        invariant
            packet.data@ == d,
            readable(packet),
            packet.position >= p0,
            i <= count,
            s@.len() == s0.len() + i,
            (s@, packet.position as int) == read_signed_bytes(s0, d, p0, i as nat),
        decreases count - i,
    {
        let a = packet.g1b();
        s.insert(i as usize, a);
        i += 1;
    }
}

/// Reads `count` two-byte values and appends them to `s`.
pub fn read_u16s_into(packet: &mut Packet, s: &mut Vec<u16>, count: usize)
    requires
        readable(old(packet)),
    ensures
        (final(s)@, final(packet).position as int) == read_u16s(
            old(s)@,
            old(packet).data@,
            old(packet).position as int,
            count as nat,
        ),
        final(packet).data@ == old(packet).data@,
        readable(final(packet)),
        final(packet).position >= old(packet).position,
{
    let ghost d = packet.data@;
    let ghost p0 = packet.position as int;
    let ghost s0 = s@;
    let mut i: usize = 0;
    while i < count
        invariant
            packet.data@ == d,
            readable(packet),
            packet.position >= p0,
            i <= count,
            (s@, packet.position as int) == read_u16s(s0, d, p0, i as nat),
        decreases count - i,
    {
        let a = packet.g2();
        s.push(a);
        i += 1;
    }
}

} // verus!
