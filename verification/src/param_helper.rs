use vstd::prelude::*;
use std::collections::HashMap;
use crate::packet::{g1_at, g3_at, g4_at, gjstr_at, gjstr_pos, pos_after, Packet};
use crate::script_file::g1_pos;

verus! {

broadcast use vstd::std_specs::hash::group_hash_axioms;

/// The terminator of the strings in config files (a newline).
pub const STRING_TERMINATOR: u8 = 10;

/// A parameter value of a config type.
pub enum ParamValue {
    String(String),
    Integer(i32),
}

/// The contents of a `ParamValue`.
pub enum ParamModel {
    String(Seq<char>),
    Integer(i32),
}

impl View for ParamValue {
    type V = ParamModel;

    open spec fn view(&self) -> ParamModel {
        match self {
            ParamValue::String(s) => ParamModel::String(s@),
            ParamValue::Integer(i) => ParamModel::Integer(*i),
        }
    }
}

/// Parameters by key.
pub type Params = HashMap<i32, ParamValue>;

/// The contents of a parameter table.
pub open spec fn params_view(p: &Params) -> Map<i32, ParamModel> {
    p@.map_values(|v: ParamValue| v@)
}

/// Whether the reads of a config file stay clear of the end of the address space.
pub open spec fn readable(packet: &Packet) -> bool {
    packet.position <= packet.data@.len() && packet.data@.len() + 8 <= usize::MAX
}

/// One parameter read at `p`: its key, its value and the cursor after it. A flag byte of 1
/// marks a string value; any other flag an integer.
pub open spec fn read_param(d: Seq<u8>, p: int) -> (i32, ParamModel, int) {
    let is_string = g1_at(d, p) == 1;
    let q = g1_pos(d, p);
    let key = g3_at(d, q);
    let r = pos_after(d, q, 3);
    if is_string {
        (key, ParamModel::String(gjstr_at(d, r, STRING_TERMINATOR)), gjstr_pos(d, r, STRING_TERMINATOR))
    } else {
        (key, ParamModel::Integer(g4_at(d, r)), pos_after(d, r, 4))
    }
}

/// `n` parameters read from `p`, later ones replacing earlier ones with the same key, and the
/// cursor after them.
pub open spec fn read_params(d: Seq<u8>, p: int, n: nat) -> (Map<i32, ParamModel>, int)
    decreases n,
{
    if n == 0 {
        (Map::empty(), p)
    } else {
        let (m, q) = read_params(d, p, (n - 1) as nat);
        let (key, value, r) = read_param(d, q);
        (m.insert(key, value), r)
    }
}

/// A parameter table read at `p` (a count byte, then the parameters), and the cursor.
pub open spec fn decode_params_spec(d: Seq<u8>, p: int) -> (Map<i32, ParamModel>, int) {
    read_params(d, g1_pos(d, p), g1_at(d, p) as nat)
}

/// Reads a parameter table: a count, then for each parameter a string flag, a three-byte key
/// and the value.
pub fn decode_params(packet: &mut Packet) -> (params: Params)
    requires
        readable(old(packet)),
    ensures
        (params_view(&params), final(packet).position as int) == decode_params_spec(
            old(packet).data@,
            old(packet).position as int,
        ),
        final(packet).data@ == old(packet).data@,
        readable(final(packet)),
        final(packet).position >= old(packet).position,
{
    let ghost d = packet.data@;
    let ghost start = packet.position;
    let count = packet.g1();
    let ghost p0 = packet.position as int;
    let mut params: Params = HashMap::new();
    let mut i: u8 = 0;
    assert(params_view(&params) =~= Map::<i32, ParamModel>::empty());
    while i < count
        invariant
            packet.data@ == d,
            readable(packet),
            packet.position >= start,
            i <= count,
            (params_view(&params), packet.position as int) == read_params(d, p0, i as nat),
        decreases count - i,
    {
        let ghost before = params_view(&params);
        let is_string = packet.g1() == 1;
        let key = packet.g3();
        let value = if is_string {
            ParamValue::String(packet.gjstr(STRING_TERMINATOR))
        } else {
            ParamValue::Integer(packet.g4())
        };
        let ghost v = value@;
        params.insert(key, value);
        assert(params_view(&params) =~= before.insert(key, v));
        i += 1;
    }
    params
}

} // verus!
