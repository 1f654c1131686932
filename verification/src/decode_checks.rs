use vstd::prelude::*;
use vstd::slice::slice_to_vec;
use crate::config_type::{more_to_read, read_pairs, read_signed_bytes, ConfigType};
use crate::loc_type::{loc_decode_ok, loc_decode_spec, loc_type_ok, LocModel, LocType};
use crate::obj_type::{count_tables, obj_decode_ok, obj_decode_spec, obj_type_ok, ObjModel, ObjType};
use crate::packet::{g1_at, Packet};
use crate::param_helper::readable;
use crate::script_file::g1_pos;

verus! {

/// The smaller of `n` and 16: enough to tell whether an insertion index below 10 is in range.
pub open spec fn capped(n: nat) -> nat {
    if n < 16 {
        n
    } else {
        16
    }
}

fn cap_len(n: usize) -> (r: usize)
    ensures
        r == capped(n as nat),
{
    if n < 16 {
        n
    } else {
        16
    }
}

fn cap_next(c: usize) -> (r: usize)
    requires
        c <= 16,
    ensures
        forall|n: nat| c == #[trigger] capped(n) ==> r == capped(n + 1),
{
    if c < 16 {
        c + 1
    } else {
        16
    }
}

proof fn lemma_read_pairs_pos(
    s: Seq<u16>,
    t: Seq<u16>,
    s2: Seq<u16>,
    t2: Seq<u16>,
    d: Seq<u8>,
    p: int,
    n: nat,
)
    ensures
        read_pairs(s, t, d, p, n).2 == read_pairs(s2, t2, d, p, n).2,
    decreases n,
{
    if n > 0 {
        lemma_read_pairs_pos(s, t, s2, t2, d, p, (n - 1) as nat);
    }
}

proof fn lemma_read_signed_pos(s: Seq<i8>, s2: Seq<i8>, d: Seq<u8>, p: int, n: nat)
    ensures
        read_signed_bytes(s, d, p, n).1 == read_signed_bytes(s2, d, p, n).1,
    decreases n,
{
    if n > 0 {
        lemma_read_signed_pos(s, s2, d, p, (n - 1) as nat);
    }
}

proof fn lemma_obj_decode_pos(m: ObjModel, m2: ObjModel, op: u8, d: Seq<u8>, p: int)
    ensures
        obj_decode_spec(m, op, d, p).1 == obj_decode_spec(m2, op, d, p).1,
{
    let n = g1_at(d, p) as nat;
    let p1 = g1_pos(d, p);
    lemma_read_pairs_pos(m.recol_s, m.recol_d, m2.recol_s, m2.recol_d, d, p1, n);
    lemma_read_pairs_pos(m.retex_s, m.retex_d, m2.retex_s, m2.retex_d, d, p1, n);
    lemma_read_signed_pos(m.recol_d_palette, m2.recol_d_palette, d, p1, n);
}

/// Whether the count tables of `m` are usable: both present or the item table absent.
pub open spec fn counts_usable(m: ObjModel) -> bool {
    m.countobj is Some ==> m.countco is Some
}

proof fn lemma_obj_decode_effect(m: ObjModel, op: u8, d: Seq<u8>, p: int)
    requires
        obj_decode_ok(m, op),
    ensures
        ({
            let m1 = obj_decode_spec(m, op, d, p).0;
            &&& m1.op.len() == if 30 <= op <= 34 { m.op.len() + 1 } else { m.op.len() }
            &&& m1.iop.len() == if 35 <= op <= 39 { m.iop.len() + 1 } else { m.iop.len() }
            &&& if 100 <= op <= 109 {
                &&& m1.countobj is Some
                &&& m1.countco is Some
                &&& m1.countobj->0.len() == count_tables(m).0.len() + 1
                &&& m1.countco->0.len() == count_tables(m).1.len() + 1
            } else {
                m1.countobj == m.countobj && m1.countco == m.countco
            }
        }),
{
}

/// Tests whether an item can decode the opcode list at the cursor of `packet` (what its
/// `decode_type` asks): each action or count slot that an opcode inserts at must exist.
pub fn obj_decodable(obj: &ObjType, packet: &Packet) -> (b: bool)
    requires
        readable(packet),
    ensures
        b == obj_type_ok(obj@, packet.data@, packet.position as int),
{
    let ghost d = packet.data@;
    let ghost p0 = packet.position as int;
    let mut scratch = ObjType::new(0);
    let mut table: Vec<u16> = Vec::new();
    let mut j: usize = 0;
    while j < 10
        invariant
            j <= 10,
            table@.len() == j,
        decreases 10 - j,
    {
        table.push(0);
        j += 1;
    }
    let mut table2: Vec<u16> = Vec::new();
    j = 0;
    while j < 10
        invariant
            j <= 10,
            table2@.len() == j,
        decreases 10 - j,
    {
        table2.push(0);
        j += 1;
    }
    scratch.countobj = Some(table);
    scratch.countco = Some(table2);
    let mut p = Packet::from(slice_to_vec(packet.data.as_slice()));
    p.position = packet.position;
    let ghost mut cur = obj@;
    let mut op_c = cap_len(obj.op.len());
    let mut iop_c = cap_len(obj.iop.len());
    let mut usable = match (&obj.countobj, &obj.countco) {
        (Some(_), None) => false,
        _ => true,
    };
    let mut a_c: usize = match &obj.countobj {
        None => 0,
        Some(t) => cap_len(t.len()),
    };
    let mut b_c: usize = match (&obj.countobj, &obj.countco) {
        (Some(_), Some(t)) => cap_len(t.len()),
        _ => 0,
    };
    loop
        invariant
            p.data@ == d,
            d == packet.data@,
            p0 == packet.position as int,
            readable(&p),
            obj_type_ok(obj@, d, p0) == obj_type_ok(cur, d, p.position as int),
            op_c == capped(cur.op.len()),
            iop_c == capped(cur.iop.len()),
            usable == counts_usable(cur),
            usable ==> a_c == capped(count_tables(cur).0.len()) && b_c == capped(
                count_tables(cur).1.len(),
            ),
            scratch@.op.len() >= 5,
            scratch@.iop.len() >= 5,
            scratch@.countobj is Some,
            scratch@.countco is Some,
            scratch@.countobj->0.len() >= 10,
            scratch@.countco->0.len() >= 10,
        decreases d.len() - p.position,
    {
        let start = p.position;
        let ghost pos = p.position as int;
        if p.remaining() <= 0 {
            assert(!more_to_read(d, pos));
            assert(obj_type_ok(cur, d, pos));
            return true;
        }
        assert(more_to_read(d, pos));
        assert(pos < d.len());
        let opcode = p.g1();
        assert(opcode == g1_at(d, pos));
        if opcode == 0 {
            return true;
        }
        let ok = if 30 <= opcode && opcode <= 34 {
            ((opcode - 30) as usize) <= op_c
        } else if 35 <= opcode && opcode <= 39 {
            ((opcode - 35) as usize) <= iop_c
        } else if 100 <= opcode && opcode <= 109 {
            let k = (opcode - 100) as usize;
            usable && k <= a_c && k <= b_c
        } else {
            true
        };
        assert(ok == obj_decode_ok(cur, opcode));
        if !ok {
            assert(!obj_type_ok(cur, d, pos));
            return false;
        }
        proof {
            lemma_obj_decode_pos(scratch@, cur, opcode, d, pos + 1);
            lemma_obj_decode_effect(cur, opcode, d, pos + 1);
            lemma_obj_decode_effect(scratch@, opcode, d, pos + 1);
        }
        let ghost next = obj_decode_spec(cur, opcode, d, pos + 1).0;
        scratch.decode(opcode, &mut p);
        let q = p.position;
        if q <= start || q > p.data.len() {
            return true;
        }
        if 30 <= opcode && opcode <= 34 {
            op_c = cap_next(op_c);
        } else if 35 <= opcode && opcode <= 39 {
            iop_c = cap_next(iop_c);
        } else if 100 <= opcode && opcode <= 109 {
            a_c = cap_next(a_c);
            b_c = cap_next(b_c);
            usable = true;
        }
        proof {
            cur = next;
        }
    }
}

proof fn lemma_loc_decode_pos(m: LocModel, m2: LocModel, op: u8, d: Seq<u8>, p: int)
    ensures
        loc_decode_spec(m, op, d, p).1 == loc_decode_spec(m2, op, d, p).1,
{
    let n = g1_at(d, p) as nat;
    let p1 = g1_pos(d, p);
    lemma_read_pairs_pos(m.colours.recol_s, m.colours.recol_d, m2.colours.recol_s, m2.colours.recol_d, d, p1, n);
    lemma_read_pairs_pos(m.colours.retex_s, m.colours.retex_d, m2.colours.retex_s, m2.colours.retex_d, d, p1, n);
    lemma_read_signed_pos(m.colours.recol_d_palette, m2.colours.recol_d_palette, d, p1, n);
}

proof fn lemma_loc_decode_effect(m: LocModel, op: u8, d: Seq<u8>, p: int)
    requires
        loc_decode_ok(m, op),
    ensures
        loc_decode_spec(m, op, d, p).0.op.len() == if 30 <= op <= 34 {
            m.op.len() + 1
        } else {
            m.op.len()
        },
{
}

/// Tests whether a scenery can decode the opcode list at the cursor of `packet` (what its
/// `decode_type` asks): each action slot that an opcode inserts at must exist.
pub fn loc_decodable(loc: &LocType, packet: &Packet) -> (b: bool)
    requires
        readable(packet),
    ensures
        b == loc_type_ok(loc@, packet.data@, packet.position as int),
{
    let ghost d = packet.data@;
    let ghost p0 = packet.position as int;
    let mut scratch = LocType::new(0);
    let mut p = Packet::from(slice_to_vec(packet.data.as_slice()));
    p.position = packet.position;
    let ghost mut cur = loc@;
    let mut op_c = cap_len(loc.op.len());
    loop
        invariant
            p.data@ == d,
            d == packet.data@,
            p0 == packet.position as int,
            readable(&p),
            loc_type_ok(loc@, d, p0) == loc_type_ok(cur, d, p.position as int),
            op_c == capped(cur.op.len()),
            scratch@.op.len() >= 5,
        decreases d.len() - p.position,
    {
        let start = p.position;
        let ghost pos = p.position as int;
        if p.remaining() <= 0 {
            assert(!more_to_read(d, pos));
            return true;
        }
        assert(more_to_read(d, pos));
        assert(pos < d.len());
        let opcode = p.g1();
        assert(opcode == g1_at(d, pos));
        if opcode == 0 {
            return true;
        }
        let ok = !(30 <= opcode && opcode <= 34) || ((opcode - 30) as usize) <= op_c;
        assert(ok == loc_decode_ok(cur, opcode));
        if !ok {
            return false;
        }
        proof {
            lemma_loc_decode_pos(scratch@, cur, opcode, d, pos + 1);
            lemma_loc_decode_effect(cur, opcode, d, pos + 1);
            lemma_loc_decode_effect(scratch@, opcode, d, pos + 1);
        }
        let ghost next = loc_decode_spec(cur, opcode, d, pos + 1).0;
        scratch.decode(opcode, &mut p);
        let q = p.position;
        if q <= start || q > p.data.len() {
            return true;
        }
        if 30 <= opcode && opcode <= 34 {
            op_c = cap_next(op_c);
        }
        proof {
            cur = next;
        }
    }
}

} // verus!
