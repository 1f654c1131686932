use vstd::prelude::*;
use vstd::string::StringExecFns;
use crate::config_text::{
    int_line, int_line_of, numbered_text, numbered_text_of, param_keys, param_lines,
    push_param_lines,
};
use crate::loc_type::{LocModel, LocType};
use crate::math_ops::tdiv;
use crate::obj_writer::{action_lines, is_key_order};
use crate::text::{decimal, int_to_string};

verus! {

/// The first lines of a scenery's text: its debug name (or `[loc_<id>]`), then its name and a
/// hidden description when it has a name.
pub open spec fn loc_header(m: LocModel) -> Seq<Seq<char>> {
    let first = match m.debugname {
        Some(n) => n,
        None => "[loc_"@ + decimal(m.id as int) + "]"@,
    };
    match m.name {
        Some(n) => seq![first, "name="@ + n, "desc=HIDDEN"@],
        None => seq![first],
    }
}

/// The model lines `<key><i>=model_<id>_loc` of `models`, counted from 1.
pub open spec fn model_lines(key: Seq<char>, models: Seq<u32>) -> Seq<Seq<char>> {
    Seq::new(
        models.len(),
        |i: int| numbered_text(key, i + 1, "=model_"@, decimal(models[i] as int)) + "_loc"@,
    )
}

/// Where writing a scenery's text stands: the lines so far and whether the models were
/// written by an opcode 5.
pub struct LocWriteState {
    pub lines: Seq<Seq<char>>,
    pub models_written: bool,
}

/// The lines a scenery opcode other than the models adds.
pub open spec fn loc_op_lines(m: LocModel, opcode: u8, keys: Seq<i32>) -> Seq<Seq<char>> {
    if opcode == 14 {
        seq![int_line("width="@, m.collision.width as int)]
    } else if opcode == 15 {
        seq![int_line("length="@, m.collision.length as int)]
    } else if opcode == 29 {
        seq![int_line("ambient="@, m.lighting.ambient as int)]
    } else if opcode == 30 {
        seq![int_line("contrast="@, tdiv(m.lighting.contrast as i32, 5) as int)]
    } else if 31 <= opcode <= 34 {
        action_lines("op"@, m.op, opcode - 30)
    } else if opcode == 64 {
        seq!["shadow=no"@]
    } else if opcode == 88 {
        seq!["hardshadow=no"@]
    } else if opcode == 91 {
        seq!["members=yes"@]
    } else if opcode == 99 {
        seq![
            int_line("cursor1op="@, m.map.cursor1op as int),
            int_line("cursor1="@, m.map.cursor1 as int),
        ]
    } else if opcode == 100 {
        seq![
            int_line("cursor2op="@, m.map.cursor2op as int),
            int_line("cursor2="@, m.map.cursor2 as int),
        ]
    } else if opcode == 249 {
        param_lines(m.params, keys)
    } else {
        Seq::empty()
    }
}

/// The state after writing scenery opcode `opcode` (not 0): opcode 1 lists the models; the
/// first opcode 5 lists the models and later ones the low-detail models.
pub open spec fn loc_step(m: LocModel, opcode: u8, keys: Seq<i32>, st: LocWriteState) -> LocWriteState {
    if opcode == 1 {
        LocWriteState { lines: st.lines + model_lines("model"@, m.models), ..st }
    } else if opcode == 5 {
        if st.models_written {
            LocWriteState { lines: st.lines + model_lines("ldmodel"@, m.ldmodels), ..st }
        } else {
            LocWriteState { lines: st.lines + model_lines("model"@, m.models), models_written: true }
        }
    } else {
        LocWriteState { lines: st.lines + loc_op_lines(m, opcode, keys), ..st }
    }
}

/// Whether scenery opcode `opcode` can be written: the retexturing and palette opcodes have no
/// line to follow in a scenery's text, and an action opcode needs its slot.
pub open spec fn loc_step_ok(m: LocModel, opcode: u8) -> bool {
    &&& opcode != 41
    &&& opcode != 42
    &&& 31 <= opcode <= 34 ==> opcode - 30 < m.op.len()
}

/// The state after writing the opcodes of `order` up to the first 0.
pub open spec fn loc_run(m: LocModel, order: Seq<u8>, keys: Seq<i32>, st: LocWriteState) -> LocWriteState
    decreases order.len(),
{
    if order.len() == 0 || order[0] == 0 {
        st
    } else {
        loc_run(m, order.drop_first(), keys, loc_step(m, order[0], keys, st))
    }
}

/// Whether every opcode of `order` up to the first 0 can be written.
pub open spec fn loc_write_ok(m: LocModel, order: Seq<u8>) -> bool
    decreases order.len(),
{
    if order.len() == 0 || order[0] == 0 {
        true
    } else {
        loc_step_ok(m, order[0]) && loc_write_ok(m, order.drop_first())
    }
}

/// The text of a scenery: the header and the lines of its opcodes in `order` (parameters in
/// the order of `keys`); a blank line ends it. A scenery with nothing but its header line has
/// no text.
pub open spec fn loc_text(m: LocModel, order: Seq<u8>, keys: Seq<i32>) -> Seq<Seq<char>> {
    let all = loc_run(
        m,
        order,
        keys,
        LocWriteState { lines: loc_header(m), models_written: false },
    ).lines;
    if all.len() > 1 {
        all.push(Seq::empty())
    } else {
        Seq::empty()
    }
}

/// Whether the keys are the parameter keys of `m`, each once.
pub open spec fn is_loc_key_order(m: LocModel, keys: Seq<i32>) -> bool {
    keys.no_duplicates() && keys.to_set() == m.params.dom()
}

/// Appends the model lines of `models` under `key`.
fn push_model_lines(lines: &mut Vec<String>, key: &str, models: &Vec<u32>)
    requires
        models@.len() <= i64::MAX,
    ensures
        final(lines).deep_view() == old(lines).deep_view() + model_lines(key@, models@),
{
    let mut i: usize = 0;
    while i < models.len()
        invariant
            i <= models@.len() <= i64::MAX,
            lines.deep_view() == old(lines).deep_view() + model_lines(key@, models@.take(i as int)),
        decreases models@.len() - i,
    {
        let ghost before = lines.deep_view();
        let mut line = numbered_text_of(key, i as i64 + 1, "=model_", int_to_string(models[i] as i64).as_str());
        line.append("_loc");
        let ghost lv = line@;
        lines.push(line);
        assert(model_lines(key@, models@.take(i + 1)) =~= model_lines(key@, models@.take(i as int)).push(lv));
        assert(lines.deep_view() =~= before.push(lv));
        i += 1;
    }
    assert(models@.take(models@.len() as int) =~= models@);
}

/// A vector holding `line`.
fn one_line(line: String) -> (lines: Vec<String>)
    ensures
        lines.deep_view() == seq![line@],
{
    let ghost lv = line@;
    let lines = vec![line];
    assert(lines.deep_view() =~= seq![lv]);
    lines
}

/// A vector holding `a` then `b`.
fn two_lines(a: String, b: String) -> (lines: Vec<String>)
    ensures
        lines.deep_view() == seq![a@, b@],
{
    let ghost av = a@;
    let ghost bv = b@;
    let lines = vec![a, b];
    assert(lines.deep_view() =~= seq![av, bv]);
    lines
}

/// The lines a scenery opcode other than the models adds.
fn loc_op_lines_of(loc: &LocType, opcode: u8, keys: &Vec<i32>) -> (lines: Vec<String>)
    requires
        loc_step_ok(loc@, opcode),
        forall|i: int| 0 <= i < keys@.len() ==> loc.params@.contains_key(#[trigger] keys@[i]),
    ensures
        lines.deep_view() == loc_op_lines(loc@, opcode, keys@),
{
    if opcode == 14 {
        one_line(int_line_of("width=", loc.collision.width as i64))
    } else if opcode == 15 {
        one_line(int_line_of("length=", loc.collision.length as i64))
    } else if opcode == 29 {
        one_line(int_line_of("ambient=", loc.lighting.ambient as i64))
    } else if opcode == 30 {
        one_line(int_line_of("contrast=", (loc.lighting.contrast / 5) as i64))
    } else if 31 <= opcode && opcode <= 34 {
        let k = (opcode - 30) as usize;
        let mut lines: Vec<String> = Vec::new();
        if !loc.op[k].as_str().is_empty() {
            let line = numbered_text_of("op", k as i64 + 1, "=", loc.op[k].as_str());
            let ghost lv = line@;
            lines.push(line);
            assert(lines.deep_view() =~= seq![lv]);
        } else {
            assert(lines.deep_view() =~= Seq::<Seq<char>>::empty());
        }
        lines
    } else if opcode == 64 {
        one_line(String::from_str("shadow=no"))
    } else if opcode == 88 {
        one_line(String::from_str("hardshadow=no"))
    } else if opcode == 91 {
        one_line(String::from_str("members=yes"))
    } else if opcode == 99 {
        two_lines(
            int_line_of("cursor1op=", loc.map.cursor1op as i64),
            int_line_of("cursor1=", loc.map.cursor1 as i64),
        )
    } else if opcode == 100 {
        two_lines(
            int_line_of("cursor2op=", loc.map.cursor2op as i64),
            int_line_of("cursor2=", loc.map.cursor2 as i64),
        )
    } else if opcode == 249 {
        let mut lines: Vec<String> = Vec::new();
        push_param_lines(&mut lines, &loc.params, keys);
        assert(lines.deep_view() =~= loc_op_lines(loc@, opcode, keys@));
        lines
    } else {
        let lines: Vec<String> = Vec::new();
        assert(lines.deep_view() =~= Seq::<Seq<char>>::empty());
        lines
    }
}

/// The header lines of a scenery.
fn loc_header_of(loc: &LocType) -> (lines: Vec<String>)
    ensures
        lines.deep_view() == loc_header(loc@),
{
    let first = match &loc.debugname {
        Some(n) => n.clone(),
        None => {
            let mut t = int_line_of("[loc_", loc.id as i64);
            t.append("]");
            t
        },
    };
    let ghost fv = first@;
    let mut lines: Vec<String> = vec![first];
    match &loc.name {
        Some(n) => {
            let mut line = String::from_str("name=");
            line.append(n.as_str());
            let ghost nv = line@;
            lines.push(line);
            lines.push(String::from_str("desc=HIDDEN"));
            assert(lines.deep_view() =~= seq![fv, nv, "desc=HIDDEN"@]);
        },
        None => {
            assert(lines.deep_view() =~= seq![fv]);
        },
    }
    lines
}

/// What `loc_text_of` asks of a scenery and an opcode order.
pub open spec fn loc_text_ok(m: LocModel, order: Seq<u8>) -> bool {
    &&& loc_write_ok(m, order)
    &&& m.models.len() <= i64::MAX
    &&& m.ldmodels.len() <= i64::MAX
}

/// Tests what `loc_text_of` asks of a scenery and an opcode order.
pub fn loc_writable(loc: &LocType, opcode_order: &[u8]) -> (b: bool)
    ensures
        b == loc_text_ok(loc@, opcode_order@),
{
    if loc.models.len() as u64 > i64::MAX as u64 || loc.ldmodels.len() as u64 > i64::MAX as u64 {
        return false;
    }
    let ghost m = loc@;
    let ghost order = opcode_order@;
    let mut i: usize = 0;
    assert(order.skip(0) =~= order);
    while i < opcode_order.len() && opcode_order[i] != 0
        invariant
            i <= order.len(),
            order == opcode_order@,
            m == loc@,
            loc_write_ok(m, order) == loc_write_ok(m, order.skip(i as int)),
        decreases order.len() - i,
    {
        let op = opcode_order[i];
        assert(order.skip(i as int).drop_first() =~= order.skip(i + 1));
        assert(order.skip(i as int)[0] == op);
        let ok = op != 41 && op != 42 && (!(31 <= op && op <= 34) || ((op - 30) as usize)
            < loc.op.len());
        assert(ok == loc_step_ok(m, op));
        if !ok {
            return false;
        }
        i += 1;
    }
    assert(order.skip(i as int).len() == 0 || order.skip(i as int)[0] == 0);
    true
}

/// The text of a scenery with its opcodes written in `opcode_order` and its parameters in the
/// order of `keys`.
pub fn loc_text_in_order(loc: &LocType, opcode_order: &[u8], keys: &Vec<i32>) -> (text: Vec<String>)
    requires
        loc_write_ok(loc@, opcode_order@),
        loc@.models.len() <= i64::MAX,
        loc@.ldmodels.len() <= i64::MAX,
        forall|i: int| 0 <= i < keys@.len() ==> loc.params@.contains_key(#[trigger] keys@[i]),
    ensures
        text.deep_view() == loc_text(loc@, opcode_order@, keys@),
{
    let ghost m = loc@;
    let mut lines = loc_header_of(loc);
    let mut models_written = false;
    let ghost total = loc_run(m, opcode_order@, keys@, LocWriteState { lines: loc_header(m), models_written: false });
    assert(opcode_order@.skip(0) =~= opcode_order@);
    let mut i: usize = 0;
    while i < opcode_order.len()
        invariant_except_break
            loc_run(
                m,
                opcode_order@.skip(i as int),
                keys@,
                LocWriteState { lines: lines.deep_view(), models_written },
            ) == total,
            loc_write_ok(m, opcode_order@.skip(i as int)),
        invariant
            m == loc@,
            i <= opcode_order@.len(),
            m.models.len() <= i64::MAX,
            m.ldmodels.len() <= i64::MAX,
            forall|j: int| 0 <= j < keys@.len() ==> loc.params@.contains_key(#[trigger] keys@[j]),
        ensures
            lines.deep_view() == total.lines,
        decreases opcode_order@.len() - i,
    {
        let opcode = opcode_order[i];
        assert(opcode_order@.skip(i as int)[0] == opcode);
        if opcode == 0 {
            break;
        }
        let ghost st = LocWriteState { lines: lines.deep_view(), models_written };
        if opcode == 1 || (opcode == 5 && !models_written) {
            push_model_lines(&mut lines, "model", &loc.models);
            if opcode == 5 {
                models_written = true;
            }
        } else if opcode == 5 {
            push_model_lines(&mut lines, "ldmodel", &loc.ldmodels);
        } else {
            let mut extra = loc_op_lines_of(loc, opcode, keys);
            let ghost ev = extra.deep_view();
            lines.append(&mut extra);
            assert(lines.deep_view() =~= st.lines + ev);
        }
        assert(LocWriteState { lines: lines.deep_view(), models_written } == loc_step(
            m,
            opcode,
            keys@,
            st,
        ));
        assert(opcode_order@.skip(i as int).drop_first() =~= opcode_order@.skip(i + 1));
        i += 1;
    }
    if lines.len() > 1 {
        lines.push(String::new());
        lines
    } else {
        Vec::new()
    }
}

/// The text of a scenery config file entry for `loc`, whose opcodes were read in
/// `opcode_order`: its parameters come in the order the parameter table hands its keys out.
pub fn loc_text_of(loc: &LocType, opcode_order: &[u8]) -> (text: Vec<String>)
    requires
        loc_write_ok(loc@, opcode_order@),
        loc@.models.len() <= i64::MAX,
        loc@.ldmodels.len() <= i64::MAX,
    ensures
        exists|keys: Seq<i32>| is_loc_key_order(loc@, keys) && text.deep_view() == loc_text(loc@, opcode_order@, keys),
{
    let keys = param_keys(&loc.params);
    assert(loc@.params.dom() =~= loc.params@.dom());
    assert(is_loc_key_order(loc@, keys@));
    assert forall|i: int| 0 <= i < keys@.len() implies loc.params@.contains_key(#[trigger] keys@[i]) by {
        assert(keys@.to_set().contains(keys@[i]));
    }
    loc_text_in_order(loc, opcode_order, &keys)
}

} // verus!
