use vstd::prelude::*;
use crate::text::decimal;
use crate::loc_type::{
    loc_decode_spec, AnimationModel, CollisionModel, FormModel, GroundModel, LightingModel, LocModel,
    MapModel,
};
use crate::obj_type::{count_tables, obj_decode_spec, ObjModel};
use crate::loc_writer::{loc_op_lines, loc_step, model_lines, LocWriteState};
use crate::math_ops::tdiv;
use crate::config_text::{pair_lines, palette_lines};
use crate::obj_writer::{obj_op_lines, obj_step, obj_text, WriteState};
use crate::packet::{be16, be32, g1_at, g2_at, gjstr_at, gjstr_pos, pos_after};

verus! {

/// The unsigned big-endian value of the two bytes at `p` of `d`.
pub open spec fn two_bytes(d: Seq<u8>, p: int) -> int {
    d[p] as int * 256 + d[p + 1] as int
}

/// The same two bytes read as a signed number.
pub open spec fn two_bytes_signed(d: Seq<u8>, p: int) -> int {
    if two_bytes(d, p) >= 32768 {
        two_bytes(d, p) - 65536
    } else {
        two_bytes(d, p)
    }
}

proof fn lemma_two_bytes(d: Seq<u8>, p: int)
    requires
        0 <= p,
        p + 2 <= d.len(),
    ensures
        be16(d[p], d[p + 1]) as int == two_bytes(d, p),
{
    let x = d[p];
    let y = d[p + 1];
    assert(be16(x, y) as int == x as int * 256 + y as int) by (bit_vector);
}

/// Each item opcode that carries one two-byte value sets exactly its own field to that value
/// (read big-endian) and moves the cursor past the two bytes; every other field is left as
/// it was. Opcode 1 sets the model, 4 the 2D zoom, 5 and 6 the 2D x and y angles, 7 and 8 the
/// signed 2D offsets, 23 to 26 the first and second wear models of men and women, 78 and 79
/// their third wear models, 90 to 93 their head models, 95 the 2D z angle, 97 and 98 the note
/// link and template, 110 and 111 the x and y resize, 121 and 122 the lend link and template.
pub proof fn law_obj_two_byte_opcodes(m: ObjModel, d: Seq<u8>, p: int)
    requires
        0 <= p,
        p + 2 <= d.len(),
    ensures
        ({
            let w = two_bytes(d, p);
            let s = two_bytes_signed(d, p);
            let q = p + 2;
            &&& obj_decode_spec(m, 1, d, p) == (ObjModel { model: w as u32, ..m }, q)
            &&& obj_decode_spec(m, 4, d, p) == (ObjModel { zoom2d: w as u32, ..m }, q)
            &&& obj_decode_spec(m, 5, d, p) == (ObjModel { xan2d: w as u32, ..m }, q)
            &&& obj_decode_spec(m, 6, d, p) == (ObjModel { yan2d: w as u32, ..m }, q)
            &&& obj_decode_spec(m, 7, d, p) == (ObjModel { xof2d: s as i32, ..m }, q)
            &&& obj_decode_spec(m, 8, d, p) == (ObjModel { yof2d: s as i32, ..m }, q)
            &&& obj_decode_spec(m, 23, d, p) == (ObjModel { man_wear: w as i32, ..m }, q)
            &&& obj_decode_spec(m, 24, d, p) == (ObjModel { man_wear2: w as i32, ..m }, q)
            &&& obj_decode_spec(m, 25, d, p) == (ObjModel { woman_wear: w as i32, ..m }, q)
            &&& obj_decode_spec(m, 26, d, p) == (ObjModel { woman_wear2: w as i32, ..m }, q)
            &&& obj_decode_spec(m, 78, d, p) == (ObjModel { man_wear3: w as i32, ..m }, q)
            &&& obj_decode_spec(m, 79, d, p) == (ObjModel { woman_wear3: w as i32, ..m }, q)
            &&& obj_decode_spec(m, 90, d, p) == (ObjModel { man_head: w as i32, ..m }, q)
            &&& obj_decode_spec(m, 91, d, p) == (ObjModel { woman_head: w as i32, ..m }, q)
            &&& obj_decode_spec(m, 92, d, p) == (ObjModel { man_head2: w as i32, ..m }, q)
            &&& obj_decode_spec(m, 93, d, p) == (ObjModel { woman_head2: w as i32, ..m }, q)
            &&& obj_decode_spec(m, 95, d, p) == (ObjModel { zand2d: w as u32, ..m }, q)
            &&& obj_decode_spec(m, 97, d, p) == (ObjModel { certlink: w as i32, ..m }, q)
            &&& obj_decode_spec(m, 98, d, p) == (ObjModel { certtemplate: w as i32, ..m }, q)
            &&& obj_decode_spec(m, 110, d, p) == (ObjModel { resizex: w as u32, ..m }, q)
            &&& obj_decode_spec(m, 111, d, p) == (ObjModel { resizey: w as u32, ..m }, q)
            &&& obj_decode_spec(m, 121, d, p) == (ObjModel { lentlink: w as i32, ..m }, q)
            &&& obj_decode_spec(m, 122, d, p) == (ObjModel { lenttemplate: w as i32, ..m }, q)
        }),
{
    lemma_two_bytes(d, p);
}

/// The signed big-endian value of the four bytes at `p` of `d`.
pub open spec fn four_bytes_signed(d: Seq<u8>, p: int) -> int {
    let u = d[p] as int * 0x100_0000 + d[p + 1] as int * 0x1_0000 + d[p + 2] as int * 0x100
        + d[p + 3] as int;
    if u >= 0x8000_0000 {
        u - 0x1_0000_0000
    } else {
        u
    }
}

/// The byte at `p` of `d` read as a signed number.
pub open spec fn byte_signed(d: Seq<u8>, p: int) -> int {
    if d[p] >= 128 {
        d[p] - 256
    } else {
        d[p] as int
    }
}

/// The item opcodes that carry no value, one byte, four bytes or a count entry: 11, 16 and 65
/// mark the item stackable, members-only and tradeable on the stock market without reading
/// anything; 12 reads the cost as a signed four-byte value; 96 the dummy flag and 115 the team
/// as one byte; 113 the ambient light as a signed byte and 114 the contrast as five times a
/// signed byte; 125 and 126 the three signed wear offsets of men and women; 127 and 128 a
/// cursor's option byte and two-byte cursor; 100 to 109 insert, at their place in the count
/// tables (created empty when missing), the item and the count that follow.
pub proof fn law_obj_other_opcodes(m: ObjModel, d: Seq<u8>, p: int)
    requires
        0 <= p,
        p + 4 <= d.len(),
    ensures
        obj_decode_spec(m, 11, d, p) == (ObjModel { stackable: true, ..m }, p),
        obj_decode_spec(m, 16, d, p) == (ObjModel { members: true, ..m }, p),
        obj_decode_spec(m, 65, d, p) == (ObjModel { stockmarket_yes: true, ..m }, p),
        obj_decode_spec(m, 12, d, p) == (ObjModel { cost: four_bytes_signed(d, p) as i32, ..m }, p + 4),
        obj_decode_spec(m, 96, d, p) == (ObjModel { dummy_item: d[p], ..m }, p + 1),
        obj_decode_spec(m, 115, d, p) == (ObjModel { team: d[p], ..m }, p + 1),
        obj_decode_spec(m, 113, d, p) == (ObjModel { ambient: byte_signed(d, p) as i8, ..m }, p + 1),
        obj_decode_spec(m, 114, d, p) == (ObjModel { contrast: (byte_signed(d, p) * 5) as i32, ..m }, p + 1),
        obj_decode_spec(m, 125, d, p) == (ObjModel {
            manwearxoffset: byte_signed(d, p) as i8,
            manwearyoffset: byte_signed(d, p + 1) as i8,
            manwearzoffset: byte_signed(d, p + 2) as i8,
            ..m
        }, p + 3),
        obj_decode_spec(m, 126, d, p) == (ObjModel {
            womanwearxoffset: byte_signed(d, p) as i8,
            womanwearyoffset: byte_signed(d, p + 1) as i8,
            womanwearzoffset: byte_signed(d, p + 2) as i8,
            ..m
        }, p + 3),
        obj_decode_spec(m, 127, d, p) == (ObjModel {
            cursor1op: byte_signed(d, p) as i8,
            cursor1: two_bytes(d, p + 1) as i32,
            ..m
        }, p + 3),
        obj_decode_spec(m, 128, d, p) == (ObjModel {
            cursor2op: byte_signed(d, p) as i8,
            cursor2: two_bytes(d, p + 1) as i32,
            ..m
        }, p + 3),
        forall|k: int|
            0 <= k < 10 ==> #[trigger] obj_decode_spec(m, (100 + k) as u8, d, p) == (ObjModel {
                countobj: Some(count_tables(m).0.insert(k, two_bytes(d, p) as u16)),
                countco: Some(count_tables(m).1.insert(k, two_bytes(d, p + 2) as u16)),
                ..m
            }, p + 4),
{
    lemma_two_bytes(d, p);
    lemma_two_bytes(d, p + 1);
    lemma_two_bytes(d, p + 2);
    let (a, b, c, e) = (d[p], d[p + 1], d[p + 2], d[p + 3]);
    assert(be32(a, b, c, e) as int == a as int * 0x100_0000 + b as int * 0x1_0000 + c as int
        * 0x100 + e as int) by (bit_vector);
    assert(be32(a, b, c, e) as i32 == four_bytes_signed(d, p) as i32) by {
        assert(forall|u: u32| #[trigger] (u as i32) == (if u >= 0x8000_0000u32 {
            u as int - 0x1_0000_0000
        } else {
            u as int
        }) as i32) by (bit_vector);
    }
    lemma_signed_bytes(d, p);
    lemma_signed_bytes(d, p + 1);
    lemma_signed_bytes(d, p + 2);
}

/// Each item opcode that carries a string sets its field to the string read up to the line
/// terminator, and the cursor moves past the terminator: 2 sets the name, 250 the debug name,
/// and 30 to 34 (35 to 39) insert an action (inventory action) at their place.
pub proof fn law_obj_string_opcodes(m: ObjModel, d: Seq<u8>, p: int)
    ensures
        obj_decode_spec(m, 2, d, p) == (ObjModel { name: Some(gjstr_at(d, p, 10)), ..m }, gjstr_pos(d, p, 10)),
        obj_decode_spec(m, 250, d, p) == (ObjModel { debugname: Some(gjstr_at(d, p, 10)), ..m }, gjstr_pos(d, p, 10)),
        forall|k: int|
            0 <= k < 5 ==> #[trigger] obj_decode_spec(m, (30 + k) as u8, d, p) == (ObjModel {
                op: m.op.insert(k, gjstr_at(d, p, 10)),
                ..m
            }, gjstr_pos(d, p, 10)),
        forall|k: int|
            0 <= k < 5 ==> #[trigger] obj_decode_spec(m, (35 + k) as u8, d, p) == (ObjModel {
                iop: m.iop.insert(k, gjstr_at(d, p, 10)),
                ..m
            }, gjstr_pos(d, p, 10)),
{
}

proof fn lemma_signed_bytes(d: Seq<u8>, p: int)
    requires
        0 <= p,
        p + 2 <= d.len(),
    ensures
        (be16(d[p], d[p + 1]) as i16) as int == two_bytes_signed(d, p),
        (d[p] as i8) as int == byte_signed(d, p),
{
    lemma_two_bytes(d, p);
    let w = be16(d[p], d[p + 1]);
    let x = d[p];
    assert((w as i16) as int == if w >= 32768 { w - 65536 } else { w as int }) by (bit_vector);
    assert((x as i8) as int == if x >= 128 { x - 256 } else { x as int }) by (bit_vector);
}

/// The scenery opcodes that set one value: 14, 15 and 69 read the width, length and blocked
/// sides as a byte; 17 makes it block neither walking nor projectiles, 18 stops it blocking
/// projectiles, 27 makes it block walking; 19 reads whether it is interactive as a signed byte
/// and 28 the wall offset as a byte; 70 to 72 read the signed x, y and z model offsets; 73 and
/// 74 force decoration and break route finding, 75 reads the object raising as a byte; 21, 81
/// and 93 set the ground bending to its first three kinds, 81 with a byte amount times 256 and
/// 93 with a two-byte amount, and 94 and 95 to the fourth and fifth; 22 and 23 turn on light
/// sharing and occlusion, 24 reads the animation (65535 for none); 29 reads the ambient light
/// as a signed byte and 39 the contrast as five times one; 60 reads the signed map function,
/// 62 mirrors it and 64 turns its shadow off; 65 to 67 read the x, y and z scale; 99 and 100
/// read a cursor option byte and a two-byte cursor; 101 reads the map icon rotation offset as
/// a byte and 102 the signed map icon. No other field changes.
pub proof fn law_loc_value_opcodes(m: LocModel, d: Seq<u8>, p: int)
    requires
        0 <= p,
        p + 3 <= d.len(),
    ensures
        ({
            let c = m.collision;
            let g = m.ground;
            let l = m.lighting;
            let f = m.form;
            let mp = m.map;
            let b = d[p];
            let sb = byte_signed(d, p);
            let w = two_bytes(d, p);
            let sw = two_bytes_signed(d, p);
            &&& loc_decode_spec(m, 14, d, p) == (LocModel { collision: CollisionModel { width: b as u32, ..c }, ..m }, p + 1)
            &&& loc_decode_spec(m, 15, d, p) == (LocModel { collision: CollisionModel { length: b as u32, ..c }, ..m }, p + 1)
            &&& loc_decode_spec(m, 69, d, p) == (LocModel { collision: CollisionModel { blocksides: b as u32, ..c }, ..m }, p + 1)
            &&& loc_decode_spec(m, 17, d, p) == (LocModel { collision: CollisionModel { blockwalk: 0, blockrange: false, ..c }, ..m }, p)
            &&& loc_decode_spec(m, 18, d, p) == (LocModel { collision: CollisionModel { blockrange: false, ..c }, ..m }, p)
            &&& loc_decode_spec(m, 27, d, p) == (LocModel { collision: CollisionModel { blockwalk: 1, ..c }, ..m }, p)
            &&& loc_decode_spec(m, 19, d, p) == (LocModel { collision: CollisionModel { active: sb as i8, ..c }, ..m }, p + 1)
            &&& loc_decode_spec(m, 28, d, p) == (LocModel { collision: CollisionModel { walloff: b as u32, ..c }, ..m }, p + 1)
            &&& loc_decode_spec(m, 70, d, p) == (LocModel { ground: GroundModel { xoff: sw as u32, ..g }, ..m }, p + 2)
            &&& loc_decode_spec(m, 71, d, p) == (LocModel { ground: GroundModel { yoff: sw as u32, ..g }, ..m }, p + 2)
            &&& loc_decode_spec(m, 72, d, p) == (LocModel { ground: GroundModel { zoff: sw as u32, ..g }, ..m }, p + 2)
            &&& loc_decode_spec(m, 73, d, p) == (LocModel { collision: CollisionModel { forcedecor: true, ..c }, ..m }, p)
            &&& loc_decode_spec(m, 74, d, p) == (LocModel { collision: CollisionModel { breakroutefinding: true, ..c }, ..m }, p)
            &&& loc_decode_spec(m, 75, d, p) == (LocModel { collision: CollisionModel { raiseobject: b as i32, ..c }, ..m }, p + 1)
            &&& loc_decode_spec(m, 21, d, p) == (LocModel { ground: GroundModel { hillchange: 1, ..g }, ..m }, p)
            &&& loc_decode_spec(m, 81, d, p) == (LocModel { ground: GroundModel { hillchange: 2, hillchange_amount: (b * 256) as i32, ..g }, ..m }, p + 1)
            &&& loc_decode_spec(m, 93, d, p) == (LocModel { ground: GroundModel { hillchange: 3, hillchange_amount: w as i32, ..g }, ..m }, p + 2)
            &&& loc_decode_spec(m, 94, d, p) == (LocModel { ground: GroundModel { hillchange: 4, ..g }, ..m }, p)
            &&& loc_decode_spec(m, 95, d, p) == (LocModel { ground: GroundModel { hillchange: 5, ..g }, ..m }, p)
            &&& loc_decode_spec(m, 22, d, p) == (LocModel { lighting: LightingModel { sharelight: true, ..l }, ..m }, p)
            &&& loc_decode_spec(m, 23, d, p) == (LocModel { lighting: LightingModel { occlude: true, ..l }, ..m }, p)
            &&& loc_decode_spec(m, 24, d, p) == (LocModel { lighting: LightingModel { anim: if w == 65535 { -1i32 } else { w as i32 }, ..l }, ..m }, p + 2)
            &&& loc_decode_spec(m, 29, d, p) == (LocModel { lighting: LightingModel { ambient: sb as i8, ..l }, ..m }, p + 1)
            &&& loc_decode_spec(m, 39, d, p) == (LocModel { lighting: LightingModel { contrast: (sb * 5) as i16, ..l }, ..m }, p + 1)
            &&& loc_decode_spec(m, 60, d, p) == (LocModel { form: FormModel { mapfunction: sw as i16, ..f }, ..m }, p + 2)
            &&& loc_decode_spec(m, 62, d, p) == (LocModel { form: FormModel { mirror: true, ..f }, ..m }, p)
            &&& loc_decode_spec(m, 64, d, p) == (LocModel { lighting: LightingModel { shadow: false, ..l }, ..m }, p)
            &&& loc_decode_spec(m, 65, d, p) == (LocModel { form: FormModel { resizex: w as u32, ..f }, ..m }, p + 2)
            &&& loc_decode_spec(m, 66, d, p) == (LocModel { form: FormModel { resizey: w as u32, ..f }, ..m }, p + 2)
            &&& loc_decode_spec(m, 67, d, p) == (LocModel { form: FormModel { resizez: w as u32, ..f }, ..m }, p + 2)
            &&& loc_decode_spec(m, 99, d, p) == (LocModel { map: MapModel { cursor1op: sb as i8, cursor1: two_bytes(d, p + 1) as i32, ..mp }, ..m }, p + 3)
            &&& loc_decode_spec(m, 100, d, p) == (LocModel { map: MapModel { cursor2op: sb as i8, cursor2: two_bytes(d, p + 1) as i32, ..mp }, ..m }, p + 3)
            &&& loc_decode_spec(m, 101, d, p) == (LocModel { map: MapModel { mapsceneiconrotationoffset: b, ..mp }, ..m }, p + 1)
            &&& loc_decode_spec(m, 102, d, p) == (LocModel { map: MapModel { mapsceneicon: sw as i16, ..mp }, ..m }, p + 2)
        }),
{
    lemma_signed_bytes(d, p);
    lemma_two_bytes(d, p);
    lemma_two_bytes(d, p + 1);
    let w16 = g2_at(d, p);
    assert(w16 == be16(d[p], d[p + 1]));
    assert((w16 as i16) as int == two_bytes_signed(d, p));
    assert(g1_at(d, p) == d[p]);
    assert(((d[p] as i32) * 256) as i32 == (d[p] * 256) as i32);
    assert(w16 as int == two_bytes(d, p));
    assert(pos_after(d, p, 2) == p + 2);
}

/// The line an item opcode writes names the field that opcode sets: `2dzoom=`, `2xanof=`,
/// `2yanof=`, `2dxof=`, `2dyof=`, `cost=`, the wear and head model lines (`manwear=`,
/// `manwear2=`, `womanwear=`, `womanwear2=`, `manwear3=`, `womanwear3=` with `model_<id>_obj_wear`,
/// `manhead=`, `womanhead=`, `manhead2=`, `womanhead2=` with `model_<id>_obj_head`), `2dzan=`,
/// and the resize, ambient, contrast and team lines, each followed by that field's value.
pub proof fn law_obj_field_lines(m: ObjModel, keys: Seq<i32>)
    ensures
        obj_op_lines(m, 4, keys) == seq!["2dzoom="@ + decimal(m.zoom2d as int)],
        obj_op_lines(m, 5, keys) == seq!["2xanof="@ + decimal(m.xan2d as int)],
        obj_op_lines(m, 6, keys) == seq!["2yanof="@ + decimal(m.yan2d as int)],
        obj_op_lines(m, 7, keys) == seq!["2dxof="@ + decimal(m.xof2d as int)],
        obj_op_lines(m, 8, keys) == seq!["2dyof="@ + decimal(m.yof2d as int)],
        obj_op_lines(m, 12, keys) == seq!["cost="@ + decimal(m.cost as int)],
        obj_op_lines(m, 23, keys) == seq![
            "manwear=model_"@ + decimal(m.man_wear as int) + "_obj_wear"@,
        ],
        obj_op_lines(m, 24, keys) == seq![
            "manwear2=model_"@ + decimal(m.man_wear2 as int) + "_obj_wear"@,
        ],
        obj_op_lines(m, 25, keys) == seq![
            "womanwear=model_"@ + decimal(m.woman_wear as int) + "_obj_wear"@,
        ],
        obj_op_lines(m, 26, keys) == seq![
            "womanwear2=model_"@ + decimal(m.woman_wear2 as int) + "_obj_wear"@,
        ],
        obj_op_lines(m, 78, keys) == seq![
            "manwear3=model_"@ + decimal(m.man_wear3 as int) + "_obj_wear"@,
        ],
        obj_op_lines(m, 79, keys) == seq![
            "womanwear3=model_"@ + decimal(m.woman_wear3 as int) + "_obj_wear"@,
        ],
        obj_op_lines(m, 90, keys) == seq![
            "manhead=model_"@ + decimal(m.man_head as int) + "_obj_head"@,
        ],
        obj_op_lines(m, 91, keys) == seq![
            "womanhead=model_"@ + decimal(m.woman_head as int) + "_obj_head"@,
        ],
        obj_op_lines(m, 92, keys) == seq![
            "manhead2=model_"@ + decimal(m.man_head2 as int) + "_obj_head"@,
        ],
        obj_op_lines(m, 93, keys) == seq![
            "womanhead2=model_"@ + decimal(m.woman_head2 as int) + "_obj_head"@,
        ],
        obj_op_lines(m, 95, keys) == seq!["2dzan="@ + decimal(m.zand2d as int)],
        obj_op_lines(m, 110, keys) == seq!["resizex="@ + decimal(m.resizex as int)],
        obj_op_lines(m, 111, keys) == seq!["resizey="@ + decimal(m.resizey as int)],
        obj_op_lines(m, 112, keys) == seq!["resizez="@ + decimal(m.resizez as int)],
        obj_op_lines(m, 113, keys) == seq!["ambient="@ + decimal(m.ambient as int)],
        obj_op_lines(m, 114, keys) == seq!["contrast="@ + decimal(m.contrast as int)],
        obj_op_lines(m, 115, keys) == seq!["team="@ + decimal(m.team as int)],
{
    assert("manwear="@ + "model_"@ =~= "manwear=model_"@) by {
        reveal_strlit("manwear=");
        reveal_strlit("model_");
        reveal_strlit("manwear=model_");
    }
    assert("manwear2="@ + "model_"@ =~= "manwear2=model_"@) by {
        reveal_strlit("manwear2=");
        reveal_strlit("model_");
        reveal_strlit("manwear2=model_");
    }
    assert("womanwear="@ + "model_"@ =~= "womanwear=model_"@) by {
        reveal_strlit("womanwear=");
        reveal_strlit("model_");
        reveal_strlit("womanwear=model_");
    }
    assert("womanwear2="@ + "model_"@ =~= "womanwear2=model_"@) by {
        reveal_strlit("womanwear2=");
        reveal_strlit("model_");
        reveal_strlit("womanwear2=model_");
    }
    assert("manwear3="@ + "model_"@ =~= "manwear3=model_"@) by {
        reveal_strlit("manwear3=");
        reveal_strlit("model_");
        reveal_strlit("manwear3=model_");
    }
    assert("womanwear3="@ + "model_"@ =~= "womanwear3=model_"@) by {
        reveal_strlit("womanwear3=");
        reveal_strlit("model_");
        reveal_strlit("womanwear3=model_");
    }
    assert("manhead="@ + "model_"@ =~= "manhead=model_"@) by {
        reveal_strlit("manhead=");
        reveal_strlit("model_");
        reveal_strlit("manhead=model_");
    }
    assert("womanhead="@ + "model_"@ =~= "womanhead=model_"@) by {
        reveal_strlit("womanhead=");
        reveal_strlit("model_");
        reveal_strlit("womanhead=model_");
    }
    assert("manhead2="@ + "model_"@ =~= "manhead2=model_"@) by {
        reveal_strlit("manhead2=");
        reveal_strlit("model_");
        reveal_strlit("manhead2=model_");
    }
    assert("womanhead2="@ + "model_"@ =~= "womanhead2=model_"@) by {
        reveal_strlit("womanhead2=");
        reveal_strlit("model_");
        reveal_strlit("womanhead2=model_");
    }
}

/// The remaining item lines: 11, 16 and 65 write `stackable=yes`, `members=yes` and
/// `stockmarket=yes`; 30 to 34 (35 to 39) write the action (inventory action) of their slot,
/// numbered from 1, when it is not empty; 100 to 109 write the count entry of their place,
/// numbered from 1, as `count<n>=obj_<item>,<count>`; 125 and 126 the three wear offsets; 127
/// and 128 the cursor option and cursor lines.
pub proof fn law_obj_other_lines(m: ObjModel, keys: Seq<i32>)
    ensures
        obj_op_lines(m, 11, keys) == seq!["stackable=yes"@],
        obj_op_lines(m, 16, keys) == seq!["members=yes"@],
        obj_op_lines(m, 65, keys) == seq!["stockmarket=yes"@],
        forall|k: int|
            0 <= k < 5 ==> #[trigger] obj_op_lines(m, (30 + k) as u8, keys) == if m.op[k].len() == 0 {
                Seq::<Seq<char>>::empty()
            } else {
                seq!["op"@ + decimal(k + 1) + "="@ + m.op[k]]
            },
        forall|k: int|
            0 <= k < 5 ==> #[trigger] obj_op_lines(m, (35 + k) as u8, keys) == if m.iop[k].len() == 0 {
                Seq::<Seq<char>>::empty()
            } else {
                seq!["iop"@ + decimal(k + 1) + "="@ + m.iop[k]]
            },
        forall|k: int|
            0 <= k < 10 && m.countobj is Some && m.countco is Some ==> #[trigger] obj_op_lines(
                m,
                (100 + k) as u8,
                keys,
            ) == seq![
                "count"@ + decimal(k + 1) + "=obj_"@ + decimal(m.countobj->0[k] as int) + ","@
                    + decimal(m.countco->0[k] as int),
            ],
        obj_op_lines(m, 125, keys) == seq![
            "manwearoffset="@ + decimal(m.manwearxoffset as int) + ","@ + decimal(
                m.manwearyoffset as int,
            ) + ","@ + decimal(m.manwearzoffset as int),
        ],
        obj_op_lines(m, 126, keys) == seq![
            "womanwearoffset="@ + decimal(m.womanwearxoffset as int) + ","@ + decimal(
                m.womanwearyoffset as int,
            ) + ","@ + decimal(m.womanwearzoffset as int),
        ],
        obj_op_lines(m, 127, keys) == seq![
            "cursor1op="@ + decimal(m.cursor1op as int),
            "cursor1="@ + decimal(m.cursor1 as int),
        ],
        obj_op_lines(m, 128, keys) == seq![
            "cursor2op="@ + decimal(m.cursor2op as int),
            "cursor2="@ + decimal(m.cursor2 as int),
        ],
{
}

/// The scenery lines: 14 and 15 write the width and length, 29 the ambient light, 30 the
/// contrast divided by 5 (rounded toward zero), 64, 88 and 91 `shadow=no`, `hardshadow=no` and
/// `members=yes`, 99 and 100 the cursor option and cursor lines; 1 lists the models as
/// `model<n>=model_<id>_loc` numbered from 1, and 5 does the same the first time and lists the
/// low-detail models as `ldmodel<n>=...` after that.
pub proof fn law_loc_lines(m: LocModel, keys: Seq<i32>, st: LocWriteState)
    ensures
        loc_op_lines(m, 14, keys) == seq!["width="@ + decimal(m.collision.width as int)],
        loc_op_lines(m, 15, keys) == seq!["length="@ + decimal(m.collision.length as int)],
        loc_op_lines(m, 29, keys) == seq!["ambient="@ + decimal(m.lighting.ambient as int)],
        loc_op_lines(m, 30, keys) == seq![
            "contrast="@ + decimal(tdiv(m.lighting.contrast as i32, 5) as int),
        ],
        loc_op_lines(m, 64, keys) == seq!["shadow=no"@],
        loc_op_lines(m, 88, keys) == seq!["hardshadow=no"@],
        loc_op_lines(m, 91, keys) == seq!["members=yes"@],
        loc_op_lines(m, 99, keys) == seq![
            "cursor1op="@ + decimal(m.map.cursor1op as int),
            "cursor1="@ + decimal(m.map.cursor1 as int),
        ],
        loc_op_lines(m, 100, keys) == seq![
            "cursor2op="@ + decimal(m.map.cursor2op as int),
            "cursor2="@ + decimal(m.map.cursor2 as int),
        ],
        ({
            let ls = model_lines("model"@, m.models);
            &&& ls.len() == m.models.len()
            &&& forall|i: int|
                0 <= i < m.models.len() ==> #[trigger] ls[i] == "model"@ + decimal(i + 1)
                    + "=model_"@ + decimal(m.models[i] as int) + "_loc"@
        }),
        ({
            let ls = model_lines("ldmodel"@, m.ldmodels);
            &&& ls.len() == m.ldmodels.len()
            &&& forall|i: int|
                0 <= i < m.ldmodels.len() ==> #[trigger] ls[i] == "ldmodel"@ + decimal(i + 1)
                    + "=model_"@ + decimal(m.ldmodels[i] as int) + "_loc"@
        }),
        loc_step(m, 1, keys, st).lines == st.lines + model_lines("model"@, m.models),
        !st.models_written ==> loc_step(m, 5, keys, st).lines == st.lines + model_lines(
            "model"@,
            m.models,
        ) && loc_step(m, 5, keys, st).models_written,
        st.models_written ==> loc_step(m, 5, keys, st).lines == st.lines + model_lines(
            "ldmodel"@,
            m.ldmodels,
        ),
{
}

/// The colour pair lines list the first `n` pairs in order, two lines a pair numbered from 1:
/// `<prefix><i>s=<source>` then `<prefix><i>d=<destination>`.
pub proof fn law_pair_lines(prefix: Seq<char>, src: Seq<u16>, dst: Seq<u16>, n: nat)
    requires
        n <= src.len(),
        n <= dst.len(),
    ensures
        pair_lines(prefix, src, dst, n).len() == 2 * n,
        forall|i: int|
            0 <= i < n ==> #[trigger] pair_lines(prefix, src, dst, n)[2 * i] == prefix + decimal(
                i + 1,
            ) + "s="@ + decimal(src[i] as int) && pair_lines(prefix, src, dst, n)[2 * i + 1]
                == prefix + decimal(i + 1) + "d="@ + decimal(dst[i] as int),
    decreases n,
{
    if n > 0 {
        law_pair_lines(prefix, src, dst, (n - 1) as nat);
        let prev = pair_lines(prefix, src, dst, (n - 1) as nat);
        let all = pair_lines(prefix, src, dst, n);
        assert forall|i: int| 0 <= i < n implies #[trigger] all[2 * i] == prefix + decimal(i + 1)
            + "s="@ + decimal(src[i] as int) && all[2 * i + 1] == prefix + decimal(i + 1) + "d="@
            + decimal(dst[i] as int) by {
            if i < n - 1 {
                assert(all[2 * i] == prev[2 * i]);
                assert(all[2 * i + 1] == prev[2 * i + 1]);
            }
        }
    }
}

/// The palette lines list the first `n` palette entries in order, one line each numbered
/// from 1: `recol_pal<i>d=<entry>`.
pub proof fn law_palette_lines(pal: Seq<i8>, n: nat)
    requires
        n <= pal.len(),
    ensures
        palette_lines(pal, n).len() == n,
        forall|i: int|
            0 <= i < n ==> #[trigger] palette_lines(pal, n)[i] == "recol_pal"@ + decimal(i + 1)
                + "d="@ + decimal(pal[i] as int),
    decreases n,
{
    if n > 0 {
        law_palette_lines(pal, (n - 1) as nat);
        let prev = palette_lines(pal, (n - 1) as nat);
        assert forall|i: int| 0 <= i < n implies #[trigger] palette_lines(pal, n)[i] == "recol_pal"@
            + decimal(i + 1) + "d="@ + decimal(pal[i] as int) by {
            if i < n - 1 {
                assert(palette_lines(pal, n)[i] == prev[i]);
            }
        }
    }
}

/// Writing opcode 1 of an item adds its model line `model=model_<id>_obj` and remembers where
/// it stands; opcode 40 after a model line inserts the recolour pair lines right after that
/// line and remembers where they end.
pub proof fn law_obj_model_lines(m: ObjModel, keys: Seq<i32>, st: WriteState)
    ensures
        obj_step(m, 1, keys, st).lines == st.lines.push(
            "model=model_"@ + decimal(m.model as int) + "_obj"@,
        ),
        obj_step(m, 1, keys, st).model_index == Some(st.lines.len() as int),
        st.model_index matches Some(k) ==> {
            let extra = pair_lines("recol"@, m.recol_s, m.recol_d, m.recol_s.len());
            &&& obj_step(m, 40, keys, st).lines == st.lines.take(k + 1) + extra + st.lines.skip(k
                + 1)
            &&& obj_step(m, 40, keys, st).recol_index == Some(k + extra.len())
        },
        st.model_index is None ==> obj_step(m, 40, keys, st) == st,
{
    assert("model="@ + "model_"@ =~= "model=model_"@) by {
        reveal_strlit("model=");
        reveal_strlit("model_");
        reveal_strlit("model=model_");
    }
}

/// An item that is neither noted nor stackable has `tradeable=no` as the last line of its text
/// before the blank line that ends it; any item text ends with a blank line.
pub proof fn law_obj_tradeable_line(m: ObjModel, order: Seq<u8>, keys: Seq<i32>)
    ensures
        ({
            let t = obj_text(m, order, keys);
            &&& t.len() > 0 ==> t.last() == Seq::<char>::empty()
            &&& m.certlink == -1 && !m.stackable && t.len() > 0 ==> t[t.len() - 2]
                == "tradeable=no"@
        }),
{
}

/// Each scenery opcode that carries a string sets its field to the string read up to the line
/// terminator, and the cursor moves past the terminator: 2 sets the name, 250 the debug name,
/// and 30 to 34 insert an action at their place.
pub proof fn law_loc_string_opcodes(m: LocModel, d: Seq<u8>, p: int)
    ensures
        loc_decode_spec(m, 2, d, p) == (LocModel { name: Some(gjstr_at(d, p, 10)), ..m }, gjstr_pos(d, p, 10)),
        loc_decode_spec(m, 250, d, p) == (LocModel { debugname: Some(gjstr_at(d, p, 10)), ..m }, gjstr_pos(d, p, 10)),
        forall|k: int|
            0 <= k < 5 ==> #[trigger] loc_decode_spec(m, (30 + k) as u8, d, p) == (LocModel {
                op: m.op.insert(k, gjstr_at(d, p, 10)),
                ..m
            }, gjstr_pos(d, p, 10)),
{
}

} // verus!
