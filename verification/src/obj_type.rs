use vstd::prelude::*;
use crate::config_type::{
    more_to_read, read_pairs, read_pairs_into, read_signed_bytes, read_signed_bytes_into,
    ConfigType,
};
use crate::packet::{g1_at, g2_at, g4_at, gjstr_at, gjstr_pos, pos_after, Packet};
use crate::param_helper::{
    decode_params, decode_params_spec, params_view, readable, ParamModel, Params, STRING_TERMINATOR,
};
use crate::script_file::g1_pos;

verus! {

/// An item config: models, colours, actions, wear models and parameters.
pub struct ObjType {
    pub id: u32,
    pub debugname: Option<String>,
    pub model: u32,
    pub name: Option<String>,
    pub recol_s: Vec<u16>,
    pub recol_d: Vec<u16>,
    pub retex_s: Vec<u16>,
    pub retex_d: Vec<u16>,
    pub recol_d_palette: Vec<i8>,
    pub zoom2d: u32,
    pub xan2d: u32,
    pub yan2d: u32,
    pub xof2d: i32,
    pub yof2d: i32,
    pub stackable: bool,
    pub cost: i32,
    pub members: bool,
    pub man_wear: i32,
    pub man_wear2: i32,
    pub man_wear3: i32,
    pub woman_wear: i32,
    pub woman_wear2: i32,
    pub woman_wear3: i32,
    pub op: Vec<String>,
    pub iop: Vec<String>,
    pub stockmarket_yes: bool,
    pub man_head: i32,
    pub man_head2: i32,
    pub woman_head: i32,
    pub woman_head2: i32,
    pub zand2d: u32,
    pub dummy_item: u8,
    pub certlink: i32,
    pub certtemplate: i32,
    pub countobj: Option<Vec<u16>>,
    pub countco: Option<Vec<u16>>,
    pub resizex: u32,
    pub resizey: u32,
    pub resizez: u32,
    pub ambient: i8,
    pub contrast: i32,
    pub team: u8,
    pub lentlink: i32,
    pub lenttemplate: i32,
    pub manwearxoffset: i8,
    pub manwearyoffset: i8,
    pub manwearzoffset: i8,
    pub womanwearxoffset: i8,
    pub womanwearyoffset: i8,
    pub womanwearzoffset: i8,
    pub cursor1op: i8,
    pub cursor1: i32,
    pub cursor2op: i8,
    pub cursor2: i32,
    pub params: Params,
}

/// The contents of an `ObjType`.
#[verifier::ext_equal]
pub struct ObjModel {
    pub id: u32,
    pub debugname: Option<Seq<char>>,
    pub model: u32,
    pub name: Option<Seq<char>>,
    pub recol_s: Seq<u16>,
    pub recol_d: Seq<u16>,
    pub retex_s: Seq<u16>,
    pub retex_d: Seq<u16>,
    pub recol_d_palette: Seq<i8>,
    pub zoom2d: u32,
    pub xan2d: u32,
    pub yan2d: u32,
    pub xof2d: i32,
    pub yof2d: i32,
    pub stackable: bool,
    pub cost: i32,
    pub members: bool,
    pub man_wear: i32,
    pub man_wear2: i32,
    pub man_wear3: i32,
    pub woman_wear: i32,
    pub woman_wear2: i32,
    pub woman_wear3: i32,
    pub op: Seq<Seq<char>>,
    pub iop: Seq<Seq<char>>,
    pub stockmarket_yes: bool,
    pub man_head: i32,
    pub man_head2: i32,
    pub woman_head: i32,
    pub woman_head2: i32,
    pub zand2d: u32,
    pub dummy_item: u8,
    pub certlink: i32,
    pub certtemplate: i32,
    pub countobj: Option<Seq<u16>>,
    pub countco: Option<Seq<u16>>,
    pub resizex: u32,
    pub resizey: u32,
    pub resizez: u32,
    pub ambient: i8,
    pub contrast: i32,
    pub team: u8,
    pub lentlink: i32,
    pub lenttemplate: i32,
    pub manwearxoffset: i8,
    pub manwearyoffset: i8,
    pub manwearzoffset: i8,
    pub womanwearxoffset: i8,
    pub womanwearyoffset: i8,
    pub womanwearzoffset: i8,
    pub cursor1op: i8,
    pub cursor1: i32,
    pub cursor2op: i8,
    pub cursor2: i32,
    pub params: Map<i32, ParamModel>,
}

/// The view of an optional string.
pub open spec fn opt_string(s: Option<String>) -> Option<Seq<char>> {
    match s {
        Some(t) => Some(t@),
        None => None,
    }
}

/// The view of an optional vector.
pub open spec fn opt_vec(v: Option<Vec<u16>>) -> Option<Seq<u16>> {
    match v {
        Some(w) => Some(w@),
        None => None,
    }
}

impl View for ObjType {
    type V = ObjModel;

    open spec fn view(&self) -> ObjModel {
        ObjModel {
            id: self.id,
            debugname: opt_string(self.debugname),
            model: self.model,
            name: opt_string(self.name),
            recol_s: self.recol_s@,
            recol_d: self.recol_d@,
            retex_s: self.retex_s@,
            retex_d: self.retex_d@,
            recol_d_palette: self.recol_d_palette@,
            zoom2d: self.zoom2d,
            xan2d: self.xan2d,
            yan2d: self.yan2d,
            xof2d: self.xof2d,
            yof2d: self.yof2d,
            stackable: self.stackable,
            cost: self.cost,
            members: self.members,
            man_wear: self.man_wear,
            man_wear2: self.man_wear2,
            man_wear3: self.man_wear3,
            woman_wear: self.woman_wear,
            woman_wear2: self.woman_wear2,
            woman_wear3: self.woman_wear3,
            op: self.op.deep_view(),
            iop: self.iop.deep_view(),
            stockmarket_yes: self.stockmarket_yes,
            man_head: self.man_head,
            man_head2: self.man_head2,
            woman_head: self.woman_head,
            woman_head2: self.woman_head2,
            zand2d: self.zand2d,
            dummy_item: self.dummy_item,
            certlink: self.certlink,
            certtemplate: self.certtemplate,
            countobj: opt_vec(self.countobj),
            countco: opt_vec(self.countco),
            resizex: self.resizex,
            resizey: self.resizey,
            resizez: self.resizez,
            ambient: self.ambient,
            contrast: self.contrast,
            team: self.team,
            lentlink: self.lentlink,
            lenttemplate: self.lenttemplate,
            manwearxoffset: self.manwearxoffset,
            manwearyoffset: self.manwearyoffset,
            manwearzoffset: self.manwearzoffset,
            womanwearxoffset: self.womanwearxoffset,
            womanwearyoffset: self.womanwearyoffset,
            womanwearzoffset: self.womanwearzoffset,
            cursor1op: self.cursor1op,
            cursor1: self.cursor1,
            cursor2op: self.cursor2op,
            cursor2: self.cursor2,
            params: params_view(&self.params),
        }
    }
}

/// Five empty action names.
pub open spec fn empty_actions() -> Seq<Seq<char>> {
    Seq::new(5, |i: int| Seq::<char>::empty())
}

/// The item config `ObjType::new(id)` makes: every field at its default.
pub open spec fn new_obj_model(id: u32) -> ObjModel {
    ObjModel {
        id,
        debugname: None,
        model: 0,
        name: None,
        recol_s: Seq::empty(),
        recol_d: Seq::empty(),
        retex_s: Seq::empty(),
        retex_d: Seq::empty(),
        recol_d_palette: Seq::empty(),
        zoom2d: 2000,
        xan2d: 0,
        yan2d: 0,
        xof2d: 0,
        yof2d: 0,
        stackable: false,
        cost: 1,
        members: false,
        man_wear: -1i32,
        man_wear2: -1i32,
        man_wear3: -1i32,
        woman_wear: -1i32,
        woman_wear2: -1i32,
        woman_wear3: -1i32,
        op: empty_actions(),
        iop: empty_actions(),
        stockmarket_yes: false,
        man_head: -1i32,
        man_head2: -1i32,
        woman_head: -1i32,
        woman_head2: -1i32,
        zand2d: 0,
        dummy_item: 0,
        certlink: -1i32,
        certtemplate: -1i32,
        countobj: None,
        countco: None,
        resizex: 128,
        resizey: 128,
        resizez: 128,
        ambient: 0,
        contrast: 0,
        team: 0,
        lentlink: -1i32,
        lenttemplate: -1i32,
        manwearxoffset: 0,
        manwearyoffset: 0,
        manwearzoffset: 0,
        womanwearxoffset: 0,
        womanwearyoffset: 0,
        womanwearzoffset: 0,
        cursor1op: -1i8,
        cursor1: -1i32,
        cursor2op: -1i8,
        cursor2: -1i32,
        params: Map::empty(),
    }
}

/// A two-byte value read as a signed offset (values above 32767 wrap to negative).
pub open spec fn signed_offset(v: u16) -> i32 {
    if v as i32 > 32767 {
        (v as i32 - 65536) as i32
    } else {
        v as i32
    }
}

/// The count tables `countobj` and `countco` before a count opcode writes into them.
pub open spec fn count_tables(m: ObjModel) -> (Seq<u16>, Seq<u16>) {
    if m.countobj is None {
        (Seq::empty(), Seq::empty())
    } else {
        (m.countobj->0, m.countco->0)
    }
}

/// Whether the item opcode can be decoded into `m`: the action and count slots it inserts at
/// exist.
pub open spec fn obj_decode_ok(m: ObjModel, opcode: u8) -> bool {
    if 30 <= opcode <= 34 {
        opcode - 30 <= m.op.len()
    } else if 35 <= opcode <= 39 {
        opcode - 35 <= m.iop.len()
    } else if 100 <= opcode <= 109 {
        &&& m.countobj is Some ==> m.countco is Some
        &&& opcode - 100 <= count_tables(m).0.len()
        &&& opcode - 100 <= count_tables(m).1.len()
    } else {
        true
    }
}

/// The item config after reading the data of `opcode` at `p` in `d` into `m`, and the cursor.
pub open spec fn obj_decode_spec(m: ObjModel, opcode: u8, d: Seq<u8>, p: int) -> (ObjModel, int) {
    let b1 = g1_at(d, p);
    let p1 = g1_pos(d, p);
    let w = g2_at(d, p);
    let p2 = pos_after(d, p, 2);
    let s = gjstr_at(d, p, STRING_TERMINATOR);
    let ps = gjstr_pos(d, p, STRING_TERMINATOR);
    if opcode == 1 {
        (ObjModel { model: w as u32, ..m }, p2)
    } else if opcode == 2 {
        (ObjModel { name: Some(s), ..m }, ps)
    } else if opcode == 4 {
        (ObjModel { zoom2d: w as u32, ..m }, p2)
    } else if opcode == 5 {
        (ObjModel { xan2d: w as u32, ..m }, p2)
    } else if opcode == 6 {
        (ObjModel { yan2d: w as u32, ..m }, p2)
    } else if opcode == 7 {
        (ObjModel { xof2d: signed_offset(w), ..m }, p2)
    } else if opcode == 8 {
        (ObjModel { yof2d: signed_offset(w), ..m }, p2)
    } else if opcode == 11 {
        (ObjModel { stackable: true, ..m }, p)
    } else if opcode == 12 {
        (ObjModel { cost: g4_at(d, p), ..m }, pos_after(d, p, 4))
    } else if opcode == 16 {
        (ObjModel { members: true, ..m }, p)
    } else if opcode == 23 {
        (ObjModel { man_wear: w as i32, ..m }, p2)
    } else if opcode == 24 {
        (ObjModel { man_wear2: w as i32, ..m }, p2)
    } else if opcode == 25 {
        (ObjModel { woman_wear: w as i32, ..m }, p2)
    } else if opcode == 26 {
        (ObjModel { woman_wear2: w as i32, ..m }, p2)
    } else if 30 <= opcode <= 34 {
        (ObjModel { op: m.op.insert(opcode - 30, s), ..m }, ps)
    } else if 35 <= opcode <= 39 {
        (ObjModel { iop: m.iop.insert(opcode - 35, s), ..m }, ps)
    } else if opcode == 40 {
        let (rs, rd, q) = read_pairs(m.recol_s, m.recol_d, d, p1, b1 as nat);
        (ObjModel { recol_s: rs, recol_d: rd, ..m }, q)
    } else if opcode == 41 {
        let (rs, rd, q) = read_pairs(m.retex_s, m.retex_d, d, p1, b1 as nat);
        (ObjModel { retex_s: rs, retex_d: rd, ..m }, q)
    } else if opcode == 42 {
        let (pal, q) = read_signed_bytes(m.recol_d_palette, d, p1, b1 as nat);
        (ObjModel { recol_d_palette: pal, ..m }, q)
    } else if opcode == 65 {
        (ObjModel { stockmarket_yes: true, ..m }, p)
    } else if opcode == 78 {
        (ObjModel { man_wear3: w as i32, ..m }, p2)
    } else if opcode == 79 {
        (ObjModel { woman_wear3: w as i32, ..m }, p2)
    } else if opcode == 90 {
        (ObjModel { man_head: w as i32, ..m }, p2)
    } else if opcode == 91 {
        (ObjModel { woman_head: w as i32, ..m }, p2)
    } else if opcode == 92 {
        (ObjModel { man_head2: w as i32, ..m }, p2)
    } else if opcode == 93 {
        (ObjModel { woman_head2: w as i32, ..m }, p2)
    } else if opcode == 95 {
        (ObjModel { zand2d: w as u32, ..m }, p2)
    } else if opcode == 96 {
        (ObjModel { dummy_item: b1, ..m }, p1)
    } else if opcode == 97 {
        (ObjModel { certlink: w as i32, ..m }, p2)
    } else if opcode == 98 {
        (ObjModel { certtemplate: w as i32, ..m }, p2)
    } else if 100 <= opcode <= 109 {
        let (co, cc) = count_tables(m);
        let k = opcode - 100;
        (
            ObjModel {
                countobj: Some(co.insert(k, w)),
                countco: Some(cc.insert(k, g2_at(d, p2))),
                ..m
            },
            pos_after(d, p2, 2),
        )
    } else if opcode == 110 || opcode == 112 {
        (ObjModel { resizex: w as u32, ..m }, p2)
    } else if opcode == 111 {
        (ObjModel { resizey: w as u32, ..m }, p2)
    } else if opcode == 113 {
        (ObjModel { ambient: b1 as i8, ..m }, p1)
    } else if opcode == 114 {
        (ObjModel { contrast: ((b1 as i8) as i32 * 5) as i32, ..m }, p1)
    } else if opcode == 115 {
        (ObjModel { team: b1, ..m }, p1)
    } else if opcode == 121 {
        (ObjModel { lentlink: w as i32, ..m }, p2)
    } else if opcode == 122 {
        (ObjModel { lenttemplate: w as i32, ..m }, p2)
    } else if opcode == 125 || opcode == 126 {
        let y = g1_at(d, p1);
        let p3 = g1_pos(d, p1);
        let z = g1_at(d, p3);
        let p4 = g1_pos(d, p3);
        if opcode == 125 {
            (
                ObjModel {
                    manwearxoffset: b1 as i8,
                    manwearyoffset: y as i8,
                    manwearzoffset: z as i8,
                    ..m
                },
                p4,
            )
        } else {
            (
                ObjModel {
                    womanwearxoffset: b1 as i8,
                    womanwearyoffset: y as i8,
                    womanwearzoffset: z as i8,
                    ..m
                },
                p4,
            )
        }
    } else if opcode == 127 {
        (ObjModel { cursor1op: b1 as i8, cursor1: g2_at(d, p1) as i32, ..m }, pos_after(d, p1, 2))
    } else if opcode == 128 {
        (ObjModel { cursor2op: b1 as i8, cursor2: g2_at(d, p1) as i32, ..m }, pos_after(d, p1, 2))
    } else if opcode == 249 {
        let (params, q) = decode_params_spec(d, p);
        (ObjModel { params, ..m }, q)
    } else if opcode == 250 {
        (ObjModel { debugname: Some(s), ..m }, ps)
    } else {
        (m, p)
    }
}

/// The item config after the opcode list at `p`, the cursor after it and the opcodes read.
pub open spec fn obj_decode_type_spec(m: ObjModel, d: Seq<u8>, p: int) -> (ObjModel, int, Seq<u8>)
    decreases d.len() - p,
{
    if !more_to_read(d, p) || p < 0 || p >= d.len() {
        (m, p, Seq::empty())
    } else {
        let opcode = g1_at(d, p);
        if opcode == 0 {
            (m, p + 1, seq![0u8])
        } else {
            let (m1, q) = obj_decode_spec(m, opcode, d, p + 1);
            if q <= p || q > d.len() {
                (m1, q, seq![opcode])
            } else {
                let (m2, r, ops) = obj_decode_type_spec(m1, d, q);
                (m2, r, seq![opcode] + ops)
            }
        }
    }
}

/// Whether every opcode of the list at `p` can be decoded into `m` and the ones after it.
pub open spec fn obj_type_ok(m: ObjModel, d: Seq<u8>, p: int) -> bool
    decreases d.len() - p,
{
    if !more_to_read(d, p) || p < 0 || p >= d.len() {
        true
    } else {
        let opcode = g1_at(d, p);
        if opcode == 0 {
            true
        } else {
            let (m1, q) = obj_decode_spec(m, opcode, d, p + 1);
            &&& obj_decode_ok(m, opcode)
            &&& p < q <= d.len() ==> obj_type_ok(m1, d, q)
        }
    }
}

/// Five empty action names.
fn empty_action_names() -> (v: Vec<String>)
    ensures
        v.deep_view() == empty_actions(),
{
    let mut v: Vec<String> = Vec::new();
    let mut i: usize = 0;
    while i < 5
        invariant
            i <= 5,
            v@.len() == i,
            forall|j: int| 0 <= j < i ==> (#[trigger] v@[j])@ == Seq::<char>::empty(),
        decreases 5 - i,
    {
        v.push(String::new());
        i += 1;
    }
    assert(v.deep_view() =~= empty_actions());
    v
}

/// Whether the item opcode carries a string.
pub open spec fn is_obj_text_op(opcode: u8) -> bool {
    opcode == 2 || 30 <= opcode <= 39 || opcode == 250
}

/// Whether the item opcode carries a list or a table.
pub open spec fn is_obj_list_op(opcode: u8) -> bool {
    40 <= opcode <= 42 || 100 <= opcode <= 109 || opcode == 249
}

/// Whether the item opcode carries a string.
fn is_obj_text_opcode(opcode: u8) -> (b: bool)
    ensures
        b == is_obj_text_op(opcode),
{
    opcode == 2 || (30 <= opcode && opcode <= 39) || opcode == 250
}

/// Whether the item opcode carries a list or a table.
fn is_obj_list_opcode(opcode: u8) -> (b: bool)
    ensures
        b == is_obj_list_op(opcode),
{
    (40 <= opcode && opcode <= 42) || (100 <= opcode && opcode <= 109) || opcode == 249
}

/// Whether the item opcode sets the model, its 2D view, its size or its lighting.
pub open spec fn is_obj_appearance_op(opcode: u8) -> bool {
    opcode == 1 || 4 <= opcode <= 8 || 110 <= opcode <= 115
}

/// Whether the item opcode sets a wear or head model or a wear offset.
pub open spec fn is_obj_wear_op(opcode: u8) -> bool {
    23 <= opcode <= 26 || opcode == 78 || opcode == 79 || 90 <= opcode <= 93 || opcode == 125
        || opcode == 126
}

/// Whether the item opcode sets the model, its 2D view, its size or its lighting.
fn is_obj_appearance_opcode(opcode: u8) -> (b: bool)
    ensures
        b == is_obj_appearance_op(opcode),
{
    opcode == 1 || (4 <= opcode && opcode <= 8) || (110 <= opcode && opcode <= 115)
}

/// Whether the item opcode sets a wear or head model or a wear offset.
fn is_obj_wear_opcode(opcode: u8) -> (b: bool)
    ensures
        b == is_obj_wear_op(opcode),
{
    (23 <= opcode && opcode <= 26) || opcode == 78 || opcode == 79 || (90 <= opcode && opcode
        <= 93) || opcode == 125 || opcode == 126
}

impl ObjType {
    /// An item config with identifier `id` and every other field at its default.
    pub fn new(id: u32) -> (o: ObjType)
        ensures
            o@ == new_obj_model(id),
    {
        let o = ObjType {
            id,
            debugname: None,
            model: 0,
            name: None,
            recol_s: Vec::new(),
            recol_d: Vec::new(),
            retex_s: Vec::new(),
            retex_d: Vec::new(),
            recol_d_palette: Vec::new(),
            zoom2d: 2000,
            xan2d: 0,
            yan2d: 0,
            xof2d: 0,
            yof2d: 0,
            stackable: false,
            cost: 1,
            members: false,
            man_wear: -1,
            man_wear2: -1,
            man_wear3: -1,
            woman_wear: -1,
            woman_wear2: -1,
            woman_wear3: -1,
            op: empty_action_names(),
            iop: empty_action_names(),
            stockmarket_yes: false,
            man_head: -1,
            man_head2: -1,
            woman_head: -1,
            woman_head2: -1,
            zand2d: 0,
            dummy_item: 0,
            certlink: -1,
            certtemplate: -1,
            countobj: None,
            countco: None,
            resizex: 128,
            resizey: 128,
            resizez: 128,
            ambient: 0,
            contrast: 0,
            team: 0,
            lentlink: -1,
            lenttemplate: -1,
            manwearxoffset: 0,
            manwearyoffset: 0,
            manwearzoffset: 0,
            womanwearxoffset: 0,
            womanwearyoffset: 0,
            womanwearzoffset: 0,
            cursor1op: -1,
            cursor1: -1,
            cursor2op: -1,
            cursor2: -1,
            params: Params::new(),
        };
        assert(params_view(&o.params) =~= Map::<i32, ParamModel>::empty());
        assert(o@ =~= new_obj_model(id));
        o
    }

    /// Reads the data of an opcode that carries a string.
    fn decode_text(&mut self, opcode: u8, packet: &mut Packet)
        requires
            readable(old(packet)),
            obj_decode_ok(old(self)@, opcode),
            is_obj_text_op(opcode),
        ensures
            (final(self)@, final(packet).position as int) == obj_decode_spec(
                old(self)@,
                opcode,
                old(packet).data@,
                old(packet).position as int,
            ),
            final(packet).data@ == old(packet).data@,
            readable(final(packet)),
            final(packet).position >= old(packet).position,
    {
        let ghost m = self@;
        let ghost d = packet.data@;
        let ghost p = packet.position as int;
        match opcode {
            2 => {
                self.name = Some(packet.gjstr(STRING_TERMINATOR));
            },
            30 | 31 | 32 | 33 | 34 => {
                let text = packet.gjstr(STRING_TERMINATOR);
                let ghost t = text@;
                self.op.insert((opcode - 30) as usize, text);
                assert(self.op.deep_view() =~= m.op.insert(opcode - 30, t));
            },
            35 | 36 | 37 | 38 | 39 => {
                let text = packet.gjstr(STRING_TERMINATOR);
                let ghost t = text@;
                self.iop.insert((opcode - 35) as usize, text);
                assert(self.iop.deep_view() =~= m.iop.insert(opcode - 35, t));
            },
            250 => {
                self.debugname = Some(packet.gjstr(STRING_TERMINATOR));
            },
            _ => {},
        }
        assert(self@ =~= obj_decode_spec(m, opcode, d, p).0);
    }

    /// Reads the data of an opcode that carries a list or a table.
    fn decode_list(&mut self, opcode: u8, packet: &mut Packet)
        requires
            readable(old(packet)),
            obj_decode_ok(old(self)@, opcode),
            is_obj_list_op(opcode),
        ensures
            (final(self)@, final(packet).position as int) == obj_decode_spec(
                old(self)@,
                opcode,
                old(packet).data@,
                old(packet).position as int,
            ),
            final(packet).data@ == old(packet).data@,
            readable(final(packet)),
            final(packet).position >= old(packet).position,
    {
        let ghost m = self@;
        let ghost d = packet.data@;
        let ghost p = packet.position as int;
        match opcode {
            40 => {
                let count = packet.g1();
                read_pairs_into(packet, &mut self.recol_s, &mut self.recol_d, count);
            },
            41 => {
                let count = packet.g1();
                read_pairs_into(packet, &mut self.retex_s, &mut self.retex_d, count);
            },
            42 => {
                let count = packet.g1();
                read_signed_bytes_into(packet, &mut self.recol_d_palette, count);
            },
            100 | 101 | 102 | 103 | 104 | 105 | 106 | 107 | 108 | 109 => {
                if self.countobj.is_none() {
                    self.countobj = Some(Vec::with_capacity(10));
                    self.countco = Some(Vec::with_capacity(10));
                }
                let k = (opcode - 100) as usize;
                let a = packet.g2();
                let mut countobj = self.countobj.take().unwrap();
                countobj.insert(k, a);
                self.countobj = Some(countobj);
                let b = packet.g2();
                let mut countco = self.countco.take().unwrap();
                countco.insert(k, b);
                self.countco = Some(countco);
            },
            249 => {
                self.params = decode_params(packet);
            },
            _ => {},
        }
        assert(self@ =~= obj_decode_spec(m, opcode, d, p).0);
    }

    /// Reads the data of an opcode that sets the model, its 2D view, its size or its lighting.
    fn decode_appearance(&mut self, opcode: u8, packet: &mut Packet)
        requires
            readable(old(packet)),
            is_obj_appearance_op(opcode),
        ensures
            (final(self)@, final(packet).position as int) == obj_decode_spec(
                old(self)@,
                opcode,
                old(packet).data@,
                old(packet).position as int,
            ),
            final(packet).data@ == old(packet).data@,
            readable(final(packet)),
            final(packet).position >= old(packet).position,
    {
        let ghost m = self@;
        let ghost d = packet.data@;
        let ghost p = packet.position as int;
        match opcode {
            1 => {
                self.model = packet.g2() as u32;
            },
            4 => {
                self.zoom2d = packet.g2() as u32;
            },
            5 => {
                self.xan2d = packet.g2() as u32;
            },
            6 => {
                self.yan2d = packet.g2() as u32;
            },
            7 => {
                let mut xof2d = packet.g2() as i32;
                if xof2d > 32767 {
                    xof2d -= 65536;
                }
                self.xof2d = xof2d;
            },
            8 => {
                let mut yof2d = packet.g2() as i32;
                if yof2d > 32767 {
                    yof2d -= 65536;
                }
                self.yof2d = yof2d;
            },
            110 => {
                self.resizex = packet.g2() as u32;
            },
            111 => {
                self.resizey = packet.g2() as u32;
            },
            112 => {
                self.resizex = packet.g2() as u32;
            },
            113 => {
                self.ambient = packet.g1b();
            },
            114 => {
                self.contrast = (packet.g1b() as i32) * 5;
            },
            115 => {
                self.team = packet.g1();
            },
            _ => {},
        }
        assert(self@ =~= obj_decode_spec(m, opcode, d, p).0);
    }

    /// Reads the data of an opcode that sets a wear or head model or a wear offset.
    fn decode_wear(&mut self, opcode: u8, packet: &mut Packet)
        requires
            readable(old(packet)),
            is_obj_wear_op(opcode),
        ensures
            (final(self)@, final(packet).position as int) == obj_decode_spec(
                old(self)@,
                opcode,
                old(packet).data@,
                old(packet).position as int,
            ),
            final(packet).data@ == old(packet).data@,
            readable(final(packet)),
            final(packet).position >= old(packet).position,
    {
        let ghost m = self@;
        let ghost d = packet.data@;
        let ghost p = packet.position as int;
        match opcode {
            23 => {
                self.man_wear = packet.g2() as i32;
            },
            24 => {
                self.man_wear2 = packet.g2() as i32;
            },
            25 => {
                self.woman_wear = packet.g2() as i32;
            },
            26 => {
                self.woman_wear2 = packet.g2() as i32;
            },
            78 => {
                self.man_wear3 = packet.g2() as i32;
            },
            79 => {
                self.woman_wear3 = packet.g2() as i32;
            },
            90 => {
                self.man_head = packet.g2() as i32;
            },
            91 => {
                self.woman_head = packet.g2() as i32;
            },
            92 => {
                self.man_head2 = packet.g2() as i32;
            },
            93 => {
                self.woman_head2 = packet.g2() as i32;
            },
            125 => {
                self.manwearxoffset = packet.g1b();
                self.manwearyoffset = packet.g1b();
                self.manwearzoffset = packet.g1b();
            },
            126 => {
                self.womanwearxoffset = packet.g1b();
                self.womanwearyoffset = packet.g1b();
                self.womanwearzoffset = packet.g1b();
            },
            _ => {},
        }
        assert(self@ =~= obj_decode_spec(m, opcode, d, p).0);
    }

    /// Reads the data of any other opcode: flags, cost, links, team and cursors.
    fn decode_other(&mut self, opcode: u8, packet: &mut Packet)
        requires
            readable(old(packet)),
            !is_obj_text_op(opcode) && !is_obj_list_op(opcode) && !is_obj_appearance_op(opcode) && !is_obj_wear_op(opcode),
        ensures
            (final(self)@, final(packet).position as int) == obj_decode_spec(
                old(self)@,
                opcode,
                old(packet).data@,
                old(packet).position as int,
            ),
            final(packet).data@ == old(packet).data@,
            readable(final(packet)),
            final(packet).position >= old(packet).position,
    {
        let ghost m = self@;
        let ghost d = packet.data@;
        let ghost p = packet.position as int;
        match opcode {
            11 => {
                self.stackable = true;
            },
            12 => {
                self.cost = packet.g4();
            },
            16 => {
                self.members = true;
            },
            65 => {
                self.stockmarket_yes = true;
            },
            95 => {
                self.zand2d = packet.g2() as u32;
            },
            96 => {
                self.dummy_item = packet.g1();
            },
            97 => {
                self.certlink = packet.g2() as i32;
            },
            98 => {
                self.certtemplate = packet.g2() as i32;
            },
            121 => {
                self.lentlink = packet.g2() as i32;
            },
            122 => {
                self.lenttemplate = packet.g2() as i32;
            },
            127 => {
                self.cursor1op = packet.g1() as i8;
                self.cursor1 = packet.g2() as i32;
            },
            128 => {
                self.cursor2op = packet.g1() as i8;
                self.cursor2 = packet.g2() as i32;
            },
            _ => {},
        }
        assert(self@ =~= obj_decode_spec(m, opcode, d, p).0);
    }
}

impl ConfigType for ObjType {
    open spec fn decode_ok(&self, opcode: u8) -> bool {
        obj_decode_ok(self@, opcode)
    }

    open spec fn type_ok(&self, d: Seq<u8>, p: int) -> bool {
        obj_type_ok(self@, d, p)
    }

    fn id(&self) -> (id: u32)
        ensures
            id == self.id,
    {
        self.id
    }

    fn debugname(&self) -> (r: Option<&String>)
        ensures
            r matches Some(s) ==> self@.debugname == Some(s@),
            r is None ==> self@.debugname is None,
    {
        self.debugname.as_ref()
    }

    fn set_debugname(&mut self, debugname: String)
        ensures
            final(self)@ == (ObjModel { debugname: Some(debugname@), ..old(self)@ }),
    {
        self.debugname = Some(debugname);
    }

    fn decode(&mut self, opcode: u8, packet: &mut Packet)
        ensures
            (final(self)@, final(packet).position as int) == obj_decode_spec(
                old(self)@,
                opcode,
                old(packet).data@,
                old(packet).position as int,
            ),
    {
        if is_obj_text_opcode(opcode) {
            self.decode_text(opcode, packet);
        } else if is_obj_list_opcode(opcode) {
            self.decode_list(opcode, packet);
        } else if is_obj_appearance_opcode(opcode) {
            self.decode_appearance(opcode, packet);
        } else if is_obj_wear_opcode(opcode) {
            self.decode_wear(opcode, packet);
        } else {
            self.decode_other(opcode, packet);
        }
    }

    fn decode_type(&mut self, packet: &mut Packet, opcode_order: &mut Vec<u8>)
        ensures
            ({
                let (m, q, ops) = obj_decode_type_spec(
                    old(self)@,
                    old(packet).data@,
                    old(packet).position as int,
                );
                &&& final(self)@ == m
                &&& final(packet).position == q
                &&& final(opcode_order)@ == old(opcode_order)@ + ops
            }),
    {
        let ghost m0 = self@;
        let ghost d = packet.data@;
        let ghost p0 = packet.position as int;
        let ghost o0 = opcode_order@;
        let ghost total = obj_decode_type_spec(m0, d, p0);
        loop
            invariant_except_break
                obj_type_ok(self@, d, packet.position as int),
                ({
                    let (m, q, ops) = obj_decode_type_spec(self@, d, packet.position as int);
                    &&& m == total.0
                    &&& q == total.1
                    &&& o0 + total.2 == opcode_order@ + ops
                }),
            invariant
                packet.data@ == d,
                readable(packet),
            ensures
                self@ == total.0,
                packet.position == total.1,
                opcode_order@ == o0 + total.2,
            decreases d.len() - packet.position,
        {
            let ghost p = packet.position as int;
            let ghost before = opcode_order@;
            if packet.remaining() <= 0 {
                assert(opcode_order@ + Seq::<u8>::empty() =~= opcode_order@);
                break;
            }
            let opcode = packet.g1();
            opcode_order.push(opcode);
            if opcode == 0 {
                assert(before + seq![0u8] =~= opcode_order@);
                break;
            }
            self.decode(opcode, packet);
            proof {
                let rest = obj_decode_type_spec(self@, d, packet.position as int).2;
                assert(before + (seq![opcode] + rest) =~= opcode_order@ + rest);
            }
        }
    }
}

} // verus!
