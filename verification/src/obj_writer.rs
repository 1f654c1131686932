use vstd::prelude::*;
use vstd::string::StringExecFns;
use crate::config_text::{
    int_line, int_line_of, numbered_text, numbered_text_of, pair_lines, palette_lines,
    param_keys, param_lines, push_pair_lines, push_palette_lines, push_param_lines, triple_line,
    triple_line_of, wrapped_line, wrapped_line_of,
};
use crate::obj_type::{ObjModel, ObjType};
use crate::param_helper::ParamValue;
use crate::text::{decimal, int_to_string};

verus! {

/// Where writing a config file stands: the lines so far, the line of the model (where colour
/// tables are inserted after) and the last line of the recolourings.
pub struct WriteState {
    pub lines: Seq<Seq<char>>,
    pub model_index: Option<int>,
    pub recol_index: Option<int>,
}

/// `lines` with `extra` inserted before position `at`.
pub open spec fn insert_lines(lines: Seq<Seq<char>>, at: int, extra: Seq<Seq<char>>) -> Seq<
    Seq<char>,
> {
    lines.take(at) + extra + lines.skip(at)
}

/// The first lines of an item's text: its debug name (or `[obj_<id>]`), then its name and a
/// hidden description when it has a name.
pub open spec fn obj_header(m: ObjModel) -> Seq<Seq<char>> {
    let first = match m.debugname {
        Some(n) => n,
        None => "[obj_"@ + decimal(m.id as int) + "]"@,
    };
    match m.name {
        Some(n) => seq![first, "name="@ + n, "desc=HIDDEN"@],
        None => seq![first],
    }
}

/// The line of a wear or head model: `<key>model_<id><suffix>`.
pub open spec fn model_ref(key: Seq<char>, id: int, suffix: Seq<char>) -> Seq<char> {
    wrapped_line(key + "model_"@, id, suffix)
}

/// The action line of slot `k` (counted from 0) of `actions` under `key`, when it is not empty.
pub open spec fn action_lines(key: Seq<char>, actions: Seq<Seq<char>>, k: int) -> Seq<Seq<char>> {
    if actions[k].len() == 0 {
        Seq::empty()
    } else {
        seq![numbered_text(key, k + 1, "="@, actions[k])]
    }
}

/// The count entry `k` of a count table (0 when there is no table).
pub open spec fn count_at(t: Option<Seq<u16>>, k: int) -> int {
    match t {
        Some(s) => s[k] as int,
        None => 0,
    }
}

/// The lines an item opcode other than the model and the colour tables adds at the end.
pub open spec fn obj_op_lines(m: ObjModel, opcode: u8, keys: Seq<i32>) -> Seq<Seq<char>> {
    if opcode == 4 {
        seq![int_line("2dzoom="@, m.zoom2d as int)]
    } else if opcode == 5 {
        seq![int_line("2xanof="@, m.xan2d as int)]
    } else if opcode == 6 {
        seq![int_line("2yanof="@, m.yan2d as int)]
    } else if opcode == 7 {
        seq![int_line("2dxof="@, m.xof2d as int)]
    } else if opcode == 8 {
        seq![int_line("2dyof="@, m.yof2d as int)]
    } else if opcode == 11 {
        seq!["stackable=yes"@]
    } else if opcode == 12 {
        seq![int_line("cost="@, m.cost as int)]
    } else if opcode == 16 {
        seq!["members=yes"@]
    } else if opcode == 23 {
        seq![model_ref("manwear="@, m.man_wear as int, "_obj_wear"@)]
    } else if opcode == 24 {
        seq![model_ref("manwear2="@, m.man_wear2 as int, "_obj_wear"@)]
    } else if opcode == 25 {
        seq![model_ref("womanwear="@, m.woman_wear as int, "_obj_wear"@)]
    } else if opcode == 26 {
        seq![model_ref("womanwear2="@, m.woman_wear2 as int, "_obj_wear"@)]
    } else if 30 <= opcode <= 34 {
        action_lines("op"@, m.op, opcode - 30)
    } else if 35 <= opcode <= 39 {
        action_lines("iop"@, m.iop, opcode - 35)
    } else if opcode == 65 {
        seq!["stockmarket=yes"@]
    } else if opcode == 78 {
        seq![model_ref("manwear3="@, m.man_wear3 as int, "_obj_wear"@)]
    } else if opcode == 79 {
        seq![model_ref("womanwear3="@, m.woman_wear3 as int, "_obj_wear"@)]
    } else if opcode == 90 {
        seq![model_ref("manhead="@, m.man_head as int, "_obj_head"@)]
    } else if opcode == 91 {
        seq![model_ref("womanhead="@, m.woman_head as int, "_obj_head"@)]
    } else if opcode == 92 {
        seq![model_ref("manhead2="@, m.man_head2 as int, "_obj_head"@)]
    } else if opcode == 93 {
        seq![model_ref("womanhead2="@, m.woman_head2 as int, "_obj_head"@)]
    } else if opcode == 95 {
        seq![int_line("2dzan="@, m.zand2d as int)]
    } else if opcode == 96 {
        seq![int_line("dummyitem=dummy_obj_"@, m.dummy_item as int)]
    } else if 100 <= opcode <= 109 {
        let k = opcode - 100;
        seq![
            numbered_text("count"@, opcode - 99, "=obj_"@, decimal(count_at(m.countobj, k)))
                + ","@ + decimal(count_at(m.countco, k)),
        ]
    } else if opcode == 110 {
        seq![int_line("resizex="@, m.resizex as int)]
    } else if opcode == 111 {
        seq![int_line("resizey="@, m.resizey as int)]
    } else if opcode == 112 {
        seq![int_line("resizez="@, m.resizez as int)]
    } else if opcode == 113 {
        seq![int_line("ambient="@, m.ambient as int)]
    } else if opcode == 114 {
        seq![int_line("contrast="@, m.contrast as int)]
    } else if opcode == 115 {
        seq![int_line("team="@, m.team as int)]
    } else if opcode == 125 {
        seq![
            triple_line(
                "manwearoffset="@,
                m.manwearxoffset as int,
                m.manwearyoffset as int,
                m.manwearzoffset as int,
            ),
        ]
    } else if opcode == 126 {
        seq![
            triple_line(
                "womanwearoffset="@,
                m.womanwearxoffset as int,
                m.womanwearyoffset as int,
                m.womanwearzoffset as int,
            ),
        ]
    } else if opcode == 127 {
        seq![int_line("cursor1op="@, m.cursor1op as int), int_line("cursor1="@, m.cursor1 as int)]
    } else if opcode == 128 {
        seq![int_line("cursor2op="@, m.cursor2op as int), int_line("cursor2="@, m.cursor2 as int)]
    } else if opcode == 249 {
        param_lines(m.params, keys)
    } else {
        Seq::empty()
    }
}

/// The state after writing item opcode `opcode` (not 0).
pub open spec fn obj_step(m: ObjModel, opcode: u8, keys: Seq<i32>, st: WriteState) -> WriteState {
    if opcode == 1 {
        WriteState {
            lines: st.lines.push(model_ref("model="@, m.model as int, "_obj"@)),
            model_index: Some(st.lines.len() as int),
            ..st
        }
    } else if opcode == 40 {
        match st.model_index {
            Some(index) => {
                let extra = pair_lines("recol"@, m.recol_s, m.recol_d, m.recol_s.len());
                WriteState {
                    lines: insert_lines(st.lines, index + 1, extra),
                    recol_index: Some(index + extra.len()),
                    ..st
                }
            },
            None => st,
        }
    } else if opcode == 41 || opcode == 42 {
        let index = if st.recol_index is Some {
            st.recol_index->0
        } else {
            st.model_index->0
        };
        if opcode == 41 {
            let extra = pair_lines("retex"@, m.retex_s, m.retex_d, m.retex_s.len());
            WriteState { lines: insert_lines(st.lines, index + 1, extra), ..st }
        } else {
            let extra = palette_lines(m.recol_d_palette, m.recol_d_palette.len());
            WriteState {
                lines: insert_lines(st.lines, index + 1, extra),
                recol_index: Some(index + extra.len()),
                ..st
            }
        }
    } else {
        WriteState { lines: st.lines + obj_op_lines(m, opcode, keys), ..st }
    }
}

/// Whether writing item opcode `opcode` can go ahead from `st`: the slots and count entries
/// it reads exist, the colour tables it lists are complete, and the retexturing and palette
/// tables have a line to follow.
pub open spec fn obj_step_ok(m: ObjModel, opcode: u8, st: WriteState) -> bool {
    if 30 <= opcode <= 34 {
        opcode - 30 < m.op.len()
    } else if 35 <= opcode <= 39 {
        opcode - 35 < m.iop.len()
    } else if opcode == 40 {
        st.model_index is Some ==> m.recol_s.len() <= m.recol_d.len() && m.recol_s.len()
            <= i64::MAX
    } else if opcode == 41 {
        &&& st.recol_index is Some || st.model_index is Some
        &&& m.retex_s.len() <= m.retex_d.len()
        &&& m.retex_s.len() <= i64::MAX
    } else if opcode == 42 {
        &&& st.recol_index is Some || st.model_index is Some
        &&& m.recol_d_palette.len() <= i64::MAX
    } else if 100 <= opcode <= 109 {
        &&& m.countobj is Some ==> opcode - 100 < m.countobj->0.len()
        &&& m.countco is Some ==> opcode - 100 < m.countco->0.len()
    } else {
        true
    }
}

/// The state after writing the opcodes of `order` up to the first 0.
pub open spec fn obj_run(m: ObjModel, order: Seq<u8>, keys: Seq<i32>, st: WriteState) -> WriteState
    decreases order.len(),
{
    if order.len() == 0 || order[0] == 0 {
        st
    } else {
        obj_run(m, order.drop_first(), keys, obj_step(m, order[0], keys, st))
    }
}

/// Whether every opcode of `order` up to the first 0 can be written.
pub open spec fn obj_write_ok(m: ObjModel, order: Seq<u8>, keys: Seq<i32>, st: WriteState) -> bool
    decreases order.len(),
{
    if order.len() == 0 || order[0] == 0 {
        true
    } else {
        obj_step_ok(m, order[0], st) && obj_write_ok(
            m,
            order.drop_first(),
            keys,
            obj_step(m, order[0], keys, st),
        )
    }
}

/// The state before the first opcode.
pub open spec fn obj_start(m: ObjModel) -> WriteState {
    WriteState { lines: obj_header(m), model_index: None, recol_index: None }
}

/// The text of an item: the header, the lines of its opcodes in `order` (parameters in the
/// order of `keys`), and `tradeable=no` when it is neither noted nor stackable; a blank line
/// ends it. An item with nothing but its header line has no text.
pub open spec fn obj_text(m: ObjModel, order: Seq<u8>, keys: Seq<i32>) -> Seq<Seq<char>> {
    let run = obj_run(m, order, keys, obj_start(m)).lines;
    let all = if m.certlink == -1 && !m.stackable {
        run.push("tradeable=no"@)
    } else {
        run
    };
    if all.len() > 1 {
        all.push(Seq::empty())
    } else {
        Seq::empty()
    }
}

/// Whether the keys are the parameter keys of `m`, each once.
pub open spec fn is_key_order(m: ObjModel, keys: Seq<i32>) -> bool {
    keys.no_duplicates() && keys.to_set() == m.params.dom()
}

/// `<key>model_<id><suffix>`.
fn model_ref_of(key: &str, id: i64, suffix: &str) -> (s: String)
    ensures
        s@ == model_ref(key@, id as int, suffix@),
{
    let mut k = String::from_str(key);
    k.append("model_");
    wrapped_line_of(k.as_str(), id, suffix)
}

/// The action line of slot `k` of `actions`, when it is not empty.
fn action_lines_of(key: &str, actions: &Vec<String>, k: usize) -> (lines: Vec<String>)
    requires
        k < actions@.len(),
        k < i64::MAX,
    ensures
        lines.deep_view() == action_lines(key@, actions.deep_view(), k as int),
{
    let mut lines: Vec<String> = Vec::new();
    if !actions[k].as_str().is_empty() {
        let line = numbered_text_of(key, k as i64 + 1, "=", actions[k].as_str());
        let ghost lv = line@;
        lines.push(line);
        assert(lines.deep_view() =~= seq![lv]);
    } else {
        assert(lines.deep_view() =~= Seq::<Seq<char>>::empty());
    }
    lines
}

/// A vector holding `line`.
fn one_line(line: String) -> (lines: Vec<String>)
    ensures
        lines.deep_view() == seq![line@],
{
    let ghost lv = line@;
    let lines = vec![line];
    assert(lines.deep_view() =~= seq![lv]);
    lines
}

/// A vector holding `a` then `b`.
fn two_lines(a: String, b: String) -> (lines: Vec<String>)
    ensures
        lines.deep_view() == seq![a@, b@],
{
    let ghost av = a@;
    let ghost bv = b@;
    let lines = vec![a, b];
    assert(lines.deep_view() =~= seq![av, bv]);
    lines
}

/// The entry `k` of a count table, or 0 without one.
fn count_of(t: &Option<Vec<u16>>, k: usize) -> (v: u16)
    requires
        t matches Some(s) ==> k < s@.len(),
    ensures
        v as int == count_at(crate::obj_type::opt_vec(*t), k as int),
{
    match t {
        Some(s) => s[k],
        None => 0,
    }
}

/// The lines an item opcode other than the model and the colour tables adds at the end.
fn obj_op_lines_of(obj: &ObjType, opcode: u8, keys: &Vec<i32>) -> (lines: Vec<String>)
    requires
        obj_step_ok(obj@, opcode, WriteState { lines: Seq::empty(), model_index: None, recol_index: None }),
        forall|i: int| 0 <= i < keys@.len() ==> obj.params@.contains_key(#[trigger] keys@[i]),
    ensures
        lines.deep_view() == obj_op_lines(obj@, opcode, keys@),
{
    if opcode == 4 {
        one_line(int_line_of("2dzoom=", obj.zoom2d as i64))
    } else if opcode == 5 {
        one_line(int_line_of("2xanof=", obj.xan2d as i64))
    } else if opcode == 6 {
        one_line(int_line_of("2yanof=", obj.yan2d as i64))
    } else if opcode == 7 {
        one_line(int_line_of("2dxof=", obj.xof2d as i64))
    } else if opcode == 8 {
        one_line(int_line_of("2dyof=", obj.yof2d as i64))
    } else if opcode == 11 {
        one_line(String::from_str("stackable=yes"))
    } else if opcode == 12 {
        one_line(int_line_of("cost=", obj.cost as i64))
    } else if opcode == 16 {
        one_line(String::from_str("members=yes"))
    } else if opcode == 23 {
        one_line(model_ref_of("manwear=", obj.man_wear as i64, "_obj_wear"))
    } else if opcode == 24 {
        one_line(model_ref_of("manwear2=", obj.man_wear2 as i64, "_obj_wear"))
    } else if opcode == 25 {
        one_line(model_ref_of("womanwear=", obj.woman_wear as i64, "_obj_wear"))
    } else if opcode == 26 {
        one_line(model_ref_of("womanwear2=", obj.woman_wear2 as i64, "_obj_wear"))
    } else if 30 <= opcode && opcode <= 34 {
        action_lines_of("op", &obj.op, (opcode - 30) as usize)
    } else if 35 <= opcode && opcode <= 39 {
        action_lines_of("iop", &obj.iop, (opcode - 35) as usize)
    } else if opcode == 65 {
        one_line(String::from_str("stockmarket=yes"))
    } else if opcode == 78 {
        one_line(model_ref_of("manwear3=", obj.man_wear3 as i64, "_obj_wear"))
    } else if opcode == 79 {
        one_line(model_ref_of("womanwear3=", obj.woman_wear3 as i64, "_obj_wear"))
    } else if opcode == 90 {
        one_line(model_ref_of("manhead=", obj.man_head as i64, "_obj_head"))
    } else if opcode == 91 {
        one_line(model_ref_of("womanhead=", obj.woman_head as i64, "_obj_head"))
    } else if opcode == 92 {
        one_line(model_ref_of("manhead2=", obj.man_head2 as i64, "_obj_head"))
    } else if opcode == 93 {
        one_line(model_ref_of("womanhead2=", obj.woman_head2 as i64, "_obj_head"))
    } else if opcode == 95 {
        one_line(int_line_of("2dzan=", obj.zand2d as i64))
    } else if opcode == 96 {
        one_line(int_line_of("dummyitem=dummy_obj_", obj.dummy_item as i64))
    } else if 100 <= opcode && opcode <= 109 {
        let k = (opcode - 100) as usize;
        let a = count_of(&obj.countobj, k);
        let b = count_of(&obj.countco, k);
        let mut line = numbered_text_of(
            "count",
            (opcode - 99) as i64,
            "=obj_",
            int_to_string(a as i64).as_str(),
        );
        line.append(",");
        line.append(int_to_string(b as i64).as_str());
        one_line(line)
    } else if opcode == 110 {
        one_line(int_line_of("resizex=", obj.resizex as i64))
    } else if opcode == 111 {
        one_line(int_line_of("resizey=", obj.resizey as i64))
    } else if opcode == 112 {
        one_line(int_line_of("resizez=", obj.resizez as i64))
    } else if opcode == 113 {
        one_line(int_line_of("ambient=", obj.ambient as i64))
    } else if opcode == 114 {
        one_line(int_line_of("contrast=", obj.contrast as i64))
    } else if opcode == 115 {
        one_line(int_line_of("team=", obj.team as i64))
    } else if opcode == 125 {
        one_line(
            triple_line_of(
                "manwearoffset=",
                obj.manwearxoffset as i64,
                obj.manwearyoffset as i64,
                obj.manwearzoffset as i64,
            ),
        )
    } else if opcode == 126 {
        one_line(
            triple_line_of(
                "womanwearoffset=",
                obj.womanwearxoffset as i64,
                obj.womanwearyoffset as i64,
                obj.womanwearzoffset as i64,
            ),
        )
    } else if opcode == 127 {
        two_lines(
            int_line_of("cursor1op=", obj.cursor1op as i64),
            int_line_of("cursor1=", obj.cursor1 as i64),
        )
    } else if opcode == 128 {
        two_lines(
            int_line_of("cursor2op=", obj.cursor2op as i64),
            int_line_of("cursor2=", obj.cursor2 as i64),
        )
    } else if opcode == 249 {
        let mut lines: Vec<String> = Vec::new();
        push_param_lines(&mut lines, &obj.params, keys);
        assert(lines.deep_view() =~= obj_op_lines(obj@, opcode, keys@));
        lines
    } else {
        let lines: Vec<String> = Vec::new();
        assert(lines.deep_view() =~= Seq::<Seq<char>>::empty());
        lines
    }
}

/// Inserts `extra` into `lines` before position `at`.
fn insert_lines_at(lines: &mut Vec<String>, at: usize, extra: Vec<String>)
    requires
        at <= old(lines)@.len(),
    ensures
        final(lines).deep_view() == insert_lines(old(lines).deep_view(), at as int, extra.deep_view()),
{
    let ghost before = lines.deep_view();
    let mut extra = extra;
    let ghost ev = extra.deep_view();
    let mut tail = lines.split_off(at);
    let ghost tv = tail.deep_view();
    assert(tv =~= before.skip(at as int));
    assert(lines.deep_view() =~= before.take(at as int));
    lines.append(&mut extra);
    lines.append(&mut tail);
    assert(lines.deep_view() =~= insert_lines(before, at as int, ev));
}

/// Writes item opcode `opcode` (not 0) into `lines` and the line indices.
fn obj_write_step(
    obj: &ObjType,
    opcode: u8,
    keys: &Vec<i32>,
    lines: &mut Vec<String>,
    model_index: &mut Option<usize>,
    recol_index: &mut Option<usize>,
)
    requires
        obj_step_ok(
            obj@,
            opcode,
            WriteState {
                lines: old(lines).deep_view(),
                model_index: index_view(*old(model_index)),
                recol_index: index_view(*old(recol_index)),
            },
        ),
        forall|i: int| 0 <= i < keys@.len() ==> obj.params@.contains_key(#[trigger] keys@[i]),
        *old(model_index) matches Some(i) ==> i < old(lines)@.len(),
        *old(recol_index) matches Some(i) ==> i < old(lines)@.len(),
    ensures
        (WriteState {
            lines: final(lines).deep_view(),
            model_index: index_view(*final(model_index)),
            recol_index: index_view(*final(recol_index)),
        }) == obj_step(
            obj@,
            opcode,
            keys@,
            WriteState {
                lines: old(lines).deep_view(),
                model_index: index_view(*old(model_index)),
                recol_index: index_view(*old(recol_index)),
            },
        ),
        *final(model_index) matches Some(i) ==> i < final(lines)@.len(),
        *final(recol_index) matches Some(i) ==> i < final(lines)@.len(),
        final(lines)@.len() >= old(lines)@.len(),
{
    let ghost st = WriteState {
        lines: lines.deep_view(),
        model_index: index_view(*model_index),
        recol_index: index_view(*recol_index),
    };
    if opcode == 1 {
        let line = model_ref_of("model=", obj.model as i64, "_obj");
        let ghost lv = line@;
        *model_index = Some(lines.len());
        lines.push(line);
        assert(lines.deep_view() =~= st.lines.push(lv));
    } else if opcode == 40 {
        if let Some(index) = *model_index {
            let line_count = lines.len();
            assert(index < line_count);
            let mut extra: Vec<String> = Vec::new();
            push_pair_lines(&mut extra, "recol", &obj.recol_s, &obj.recol_d);
            assert(extra.deep_view() =~= pair_lines("recol"@, obj@.recol_s, obj@.recol_d, obj@.recol_s.len()));
            let insert_index = index + 1;
            let count = extra.len();
            insert_lines_at(lines, insert_index, extra);
            let line_count = lines.len();
            assert(insert_index + count - 1 < line_count);
            *recol_index = Some(insert_index + count - 1);
        }
    } else if opcode == 41 || opcode == 42 {
        let index = match *recol_index {
            Some(i) => i,
            None => model_index.unwrap(),
        };
        let line_count = lines.len();
        assert(index < line_count);
        let insert_index = index + 1;
        let mut extra: Vec<String> = Vec::new();
        if opcode == 41 {
            push_pair_lines(&mut extra, "retex", &obj.retex_s, &obj.retex_d);
            assert(extra.deep_view() =~= pair_lines("retex"@, obj@.retex_s, obj@.retex_d, obj@.retex_s.len()));
            insert_lines_at(lines, insert_index, extra);
        } else {
            push_palette_lines(&mut extra, &obj.recol_d_palette);
            assert(extra.deep_view() =~= palette_lines(obj@.recol_d_palette, obj@.recol_d_palette.len()));
            let count = extra.len();
            insert_lines_at(lines, insert_index, extra);
            let line_count = lines.len();
            assert(insert_index + count - 1 < line_count);
            *recol_index = Some(insert_index + count - 1);
        }
    } else {
        let mut extra = obj_op_lines_of(obj, opcode, keys);
        let ghost ev = extra.deep_view();
        lines.append(&mut extra);
        assert(lines.deep_view() =~= st.lines + ev);
    }
}

/// The line index held, as an integer.
pub open spec fn index_view(i: Option<usize>) -> Option<int> {
    match i {
        Some(v) => Some(v as int),
        None => None,
    }
}

/// The header lines of an item.
fn obj_header_of(obj: &ObjType) -> (lines: Vec<String>)
    ensures
        lines.deep_view() == obj_header(obj@),
{
    let first = match &obj.debugname {
        Some(n) => n.clone(),
        None => {
            let mut t = int_line_of("[obj_", obj.id as i64);
            t.append("]");
            t
        },
    };
    let ghost fv = first@;
    let mut lines: Vec<String> = vec![first];
    match &obj.name {
        Some(n) => {
            let mut line = String::from_str("name=");
            line.append(n.as_str());
            let ghost nv = line@;
            lines.push(line);
            lines.push(String::from_str("desc=HIDDEN"));
            assert(lines.deep_view() =~= seq![fv, nv, "desc=HIDDEN"@]);
        },
        None => {
            assert(lines.deep_view() =~= seq![fv]);
        },
    }
    lines
}

/// What `obj_step_ok` asks, given only whether a model line and a recolour line are known.
pub open spec fn obj_op_ok(m: ObjModel, opcode: u8, has_model: bool, has_recol: bool) -> bool {
    if 30 <= opcode <= 34 {
        opcode - 30 < m.op.len()
    } else if 35 <= opcode <= 39 {
        opcode - 35 < m.iop.len()
    } else if opcode == 40 {
        has_model ==> m.recol_s.len() <= m.recol_d.len() && m.recol_s.len() <= i64::MAX
    } else if opcode == 41 {
        &&& has_recol || has_model
        &&& m.retex_s.len() <= m.retex_d.len()
        &&& m.retex_s.len() <= i64::MAX
    } else if opcode == 42 {
        &&& has_recol || has_model
        &&& m.recol_d_palette.len() <= i64::MAX
    } else if 100 <= opcode <= 109 {
        &&& m.countobj is Some ==> opcode - 100 < m.countobj->0.len()
        &&& m.countco is Some ==> opcode - 100 < m.countco->0.len()
    } else {
        true
    }
}

/// Whether every opcode of `order` up to the first 0 can be written, tracking only whether a
/// model line and a recolour line are known.
pub open spec fn obj_order_ok(m: ObjModel, order: Seq<u8>, has_model: bool, has_recol: bool) -> bool
    decreases order.len(),
{
    if order.len() == 0 || order[0] == 0 {
        true
    } else {
        let op = order[0];
        obj_op_ok(m, op, has_model, has_recol) && obj_order_ok(
            m,
            order.drop_first(),
            has_model || op == 1,
            has_recol || (op == 40 && has_model) || op == 42,
        )
    }
}

proof fn lemma_obj_order_ok(m: ObjModel, order: Seq<u8>, keys: Seq<i32>, st: WriteState)
    ensures
        obj_write_ok(m, order, keys, st) == obj_order_ok(
            m,
            order,
            st.model_index is Some,
            st.recol_index is Some,
        ),
    decreases order.len(),
{
    if !(order.len() == 0 || order[0] == 0) {
        lemma_obj_order_ok(m, order.drop_first(), keys, obj_step(m, order[0], keys, st));
    }
}

proof fn lemma_obj_order_ok_all(m: ObjModel, order: Seq<u8>)
    ensures
        forall|keys: Seq<i32>| obj_write_ok(m, order, keys, obj_start(m)) == obj_order_ok(
            m,
            order,
            false,
            false,
        ),
{
    assert forall|keys: Seq<i32>| obj_write_ok(m, order, keys, obj_start(m)) == obj_order_ok(
        m,
        order,
        false,
        false,
    ) by {
        lemma_obj_order_ok(m, order, keys, obj_start(m));
    }
}

/// Tests what `obj_text_of` asks of an item and an opcode order: that every opcode up to the
/// first 0 can be written (with whatever order of parameter keys).
pub fn obj_writable(obj: &ObjType, opcode_order: &[u8]) -> (b: bool)
    ensures
        forall|keys: Seq<i32>| obj_write_ok(obj@, opcode_order@, keys, obj_start(obj@)) == b,
{
    let ghost m = obj@;
    let ghost order = opcode_order@;
    let mut has_model = false;
    let mut has_recol = false;
    let mut i: usize = 0;
    proof {
        assert(order.skip(0) =~= order);
    }
    while i < opcode_order.len() && opcode_order[i] != 0
        invariant
            i <= order.len(),
            order == opcode_order@,
            m == obj@,
            obj_order_ok(m, order, false, false) == obj_order_ok(
                m,
                order.skip(i as int),
                has_model,
                has_recol,
            ),
        decreases order.len() - i,
    {
        let op = opcode_order[i];
        assert(order.skip(i as int).drop_first() =~= order.skip(i + 1));
        assert(order.skip(i as int)[0] == op);
        let ok = if 30 <= op && op <= 34 {
            ((op - 30) as usize) < obj.op.len()
        } else if 35 <= op && op <= 39 {
            ((op - 35) as usize) < obj.iop.len()
        } else if op == 40 {
            !has_model || (obj.recol_s.len() <= obj.recol_d.len() && obj.recol_s.len() as u64
                <= i64::MAX as u64)
        } else if op == 41 {
            (has_recol || has_model) && obj.retex_s.len() <= obj.retex_d.len()
                && obj.retex_s.len() as u64 <= i64::MAX as u64
        } else if op == 42 {
            (has_recol || has_model) && obj.recol_d_palette.len() as u64 <= i64::MAX as u64
        } else if 100 <= op && op <= 109 {
            let k = (op - 100) as usize;
            let a = match &obj.countobj {
                Some(t) => k < t.len(),
                None => true,
            };
            let c = match &obj.countco {
                Some(t) => k < t.len(),
                None => true,
            };
            a && c
        } else {
            true
        };
        assert(ok == obj_op_ok(m, op, has_model, has_recol));
        if !ok {
            assert(!obj_order_ok(m, order.skip(i as int), has_model, has_recol));
            proof {
                lemma_obj_order_ok_all(m, order);
            }
            return false;
        }
        let next_recol = has_recol || (op == 40 && has_model) || op == 42;
        has_model = has_model || op == 1;
        has_recol = next_recol;
        i += 1;
    }
    proof {
        lemma_obj_order_ok_all(m, order);
        assert(order.skip(i as int).len() == 0 || order.skip(i as int)[0] == 0);
    }
    true
}

/// The text of an item with its opcodes written in `opcode_order` and its parameters in the
/// order of `keys`.
pub fn obj_text_in_order(obj: &ObjType, opcode_order: &[u8], keys: &Vec<i32>) -> (text: Vec<String>)
    requires
        obj_write_ok(obj@, opcode_order@, keys@, obj_start(obj@)),
        forall|i: int| 0 <= i < keys@.len() ==> obj.params@.contains_key(#[trigger] keys@[i]),
    ensures
        text.deep_view() == obj_text(obj@, opcode_order@, keys@),
{
    let mut lines = obj_header_of(obj);
    let mut model_index: Option<usize> = None;
    let mut recol_index: Option<usize> = None;
    let ghost m = obj@;
    let ghost total = obj_run(m, opcode_order@, keys@, obj_start(m));
    assert(opcode_order@.skip(0) =~= opcode_order@);
    let mut i: usize = 0;
    while i < opcode_order.len()
        invariant_except_break
            ({
                let st = WriteState {
                    lines: lines.deep_view(),
                    model_index: index_view(model_index),
                    recol_index: index_view(recol_index),
                };
                &&& obj_run(m, opcode_order@.skip(i as int), keys@, st) == total
                &&& obj_write_ok(m, opcode_order@.skip(i as int), keys@, st)
            }),
        invariant
            m == obj@,
            i <= opcode_order@.len(),
            forall|j: int| 0 <= j < keys@.len() ==> obj.params@.contains_key(#[trigger] keys@[j]),
            model_index matches Some(k) ==> k < lines@.len(),
            recol_index matches Some(k) ==> k < lines@.len(),
        ensures
            lines.deep_view() == total.lines,
        decreases opcode_order@.len() - i,
    {
        let opcode = opcode_order[i];
        assert(opcode_order@.skip(i as int)[0] == opcode);
        if opcode == 0 {
            break;
        }
        obj_write_step(obj, opcode, keys, &mut lines, &mut model_index, &mut recol_index);
        assert(opcode_order@.skip(i as int).drop_first() =~= opcode_order@.skip(i + 1));
        i += 1;
    }
    if obj.certlink == -1 && !obj.stackable {
        lines.push(String::from_str("tradeable=no"));
    }
    if lines.len() > 1 {
        lines.push(String::new());
        lines
    } else {
        Vec::new()
    }
}

/// The text of an item config file entry for `obj`, whose opcodes were read in
/// `opcode_order`: its parameters come in the order the parameter table hands its keys out.
pub fn obj_text_of(obj: &ObjType, opcode_order: &[u8]) -> (text: Vec<String>)
    requires
        forall|keys: Seq<i32>| is_key_order(obj@, keys) ==> obj_write_ok(obj@, opcode_order@, keys, obj_start(obj@)),
    ensures
        exists|keys: Seq<i32>| is_key_order(obj@, keys) && text.deep_view() == obj_text(obj@, opcode_order@, keys),
{
    let keys = param_keys(&obj.params);
    assert(obj@.params.dom() =~= obj.params@.dom());
    assert(is_key_order(obj@, keys@));
    assert forall|i: int| 0 <= i < keys@.len() implies obj.params@.contains_key(#[trigger] keys@[i]) by {
        assert(keys@.to_set().contains(keys@[i]));
    }
    obj_text_in_order(obj, opcode_order, &keys)
}

} // verus!
