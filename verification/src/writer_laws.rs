use vstd::prelude::*;
use crate::loc_type::LocModel;
use crate::loc_writer::{loc_header, loc_run, loc_step, loc_text, LocWriteState};
use crate::obj_type::ObjModel;
use crate::obj_writer::{
    insert_lines, obj_header, obj_run, obj_start, obj_step, obj_step_ok, obj_text, obj_write_ok,
    WriteState,
};

verus! {

/// The lines begin with `header`, and the remembered model and recolour lines lie after it.
pub open spec fn keeps_header(st: WriteState, header: Seq<Seq<char>>) -> bool {
    &&& st.lines.len() >= header.len()
    &&& st.lines.take(header.len() as int) == header
    &&& st.model_index matches Some(i) ==> header.len() <= i < st.lines.len()
    &&& st.recol_index matches Some(i) ==> header.len() <= i < st.lines.len()
}

proof fn lemma_insert_keeps_prefix(lines: Seq<Seq<char>>, at: int, extra: Seq<Seq<char>>, h: int)
    requires
        0 <= h <= at <= lines.len(),
    ensures
        insert_lines(lines, at, extra).take(h) == lines.take(h),
        insert_lines(lines, at, extra).len() == lines.len() + extra.len(),
{
    assert(insert_lines(lines, at, extra).take(h) =~= lines.take(h));
}

proof fn lemma_obj_step_keeps_header(
    m: ObjModel,
    opcode: u8,
    keys: Seq<i32>,
    st: WriteState,
    header: Seq<Seq<char>>,
)
    requires
        keeps_header(st, header),
        obj_step_ok(m, opcode, st),
    ensures
        keeps_header(obj_step(m, opcode, keys, st), header),
{
    let h = header.len() as int;
    let next = obj_step(m, opcode, keys, st);
    if opcode == 1 {
        assert(next.lines.take(h) =~= st.lines.take(h));
    } else if opcode == 40 {
        if let Some(index) = st.model_index {
            lemma_insert_keeps_prefix(st.lines, index + 1, crate::config_text::pair_lines(
                "recol"@,
                m.recol_s,
                m.recol_d,
                m.recol_s.len(),
            ), h);
        }
    } else if opcode == 41 || opcode == 42 {
        let index = if st.recol_index is Some {
            st.recol_index->0
        } else {
            st.model_index->0
        };
        if opcode == 41 {
            lemma_insert_keeps_prefix(st.lines, index + 1, crate::config_text::pair_lines(
                "retex"@,
                m.retex_s,
                m.retex_d,
                m.retex_s.len(),
            ), h);
        } else {
            lemma_insert_keeps_prefix(st.lines, index + 1, crate::config_text::palette_lines(
                m.recol_d_palette,
                m.recol_d_palette.len(),
            ), h);
        }
    } else {
        assert(next.lines.take(h) =~= st.lines.take(h));
    }
}

proof fn lemma_obj_run_keeps_header(
    m: ObjModel,
    order: Seq<u8>,
    keys: Seq<i32>,
    st: WriteState,
    header: Seq<Seq<char>>,
)
    requires
        keeps_header(st, header),
        obj_write_ok(m, order, keys, st),
    ensures
        keeps_header(obj_run(m, order, keys, st), header),
    decreases order.len(),
{
    if !(order.len() == 0 || order[0] == 0) {
        lemma_obj_step_keeps_header(m, order[0], keys, st, header);
        lemma_obj_run_keeps_header(m, order.drop_first(), keys, obj_step(m, order[0], keys, st), header);
    }
}

/// An item's text starts with its header: the section name, then, for a named item, its
/// name and the hidden description.
pub proof fn law_obj_header_first(m: ObjModel, order: Seq<u8>, keys: Seq<i32>)
    requires
        obj_write_ok(m, order, keys, obj_start(m)),
    ensures
        obj_text(m, order, keys).len() > 0 ==> obj_text(m, order, keys).take(
            obj_header(m).len() as int,
        ) == obj_header(m),
        m.name matches Some(n) ==> obj_text(m, order, keys)[1] == "name="@ + n,
{
    let header = obj_header(m);
    assert(obj_start(m).lines.take(header.len() as int) =~= header);
    lemma_obj_run_keeps_header(m, order, keys, obj_start(m), header);
    let run = obj_run(m, order, keys, obj_start(m)).lines;
    let text = obj_text(m, order, keys);
    if text.len() > 0 {
        assert(text.take(header.len() as int) =~= run.take(header.len() as int));
    }
    if let Some(n) = m.name {
        assert(run.len() >= 3);
        assert(text[1] == run.take(header.len() as int)[1]);
    }
}

proof fn lemma_loc_run_keeps_header(
    m: LocModel,
    order: Seq<u8>,
    keys: Seq<i32>,
    st: LocWriteState,
    header: Seq<Seq<char>>,
)
    requires
        st.lines.len() >= header.len(),
        st.lines.take(header.len() as int) == header,
    ensures
        loc_run(m, order, keys, st).lines.len() >= header.len(),
        loc_run(m, order, keys, st).lines.take(header.len() as int) == header,
    decreases order.len(),
{
    if !(order.len() == 0 || order[0] == 0) {
        let next = loc_step(m, order[0], keys, st);
        assert(next.lines.take(header.len() as int) =~= st.lines.take(header.len() as int));
        lemma_loc_run_keeps_header(m, order.drop_first(), keys, next, header);
    }
}

/// A scenery's text starts with its header: the section name, then, for a named scenery,
/// its name and the hidden description.
pub proof fn law_loc_header_first(m: LocModel, order: Seq<u8>, keys: Seq<i32>)
    ensures
        loc_text(m, order, keys).len() > 0 ==> loc_text(m, order, keys).take(
            loc_header(m).len() as int,
        ) == loc_header(m),
        m.name matches Some(n) ==> loc_text(m, order, keys)[1] == "name="@ + n,
{
    let header = loc_header(m);
    let st = LocWriteState { lines: header, models_written: false };
    assert(st.lines.take(header.len() as int) =~= header);
    lemma_loc_run_keeps_header(m, order, keys, st, header);
    let run = loc_run(m, order, keys, st).lines;
    let text = loc_text(m, order, keys);
    if text.len() > 0 {
        assert(text.take(header.len() as int) =~= run.take(header.len() as int));
    }
    if let Some(n) = m.name {
        assert(text[1] == run.take(header.len() as int)[1]);
    }
}

} // verus!
