use vstd::prelude::*;
use crate::script_file::ScriptModel;
use crate::script_pointer::{pointer_index, pointer_of, ScriptPointer};
use crate::script_state::{
    int_at, pointer_flag, pointer_set, pop_frame_state, pop_int_state, pop_string_state, push_int_state,
    push_string_state, save_frame_state, setup_state, string_at, top_int, top_string, StateModel,
};

verus! {

/// `pop_int` undoes `push_int`: popping right after pushing an integer gives that integer
/// back, with the stack pointer and the stack below the pushed slot as they were.
pub proof fn law_push_then_pop_int(m: StateModel, v: i32)
    requires
        0 <= m.isp <= m.int_stack.len(),
    ensures
        top_int(push_int_state(m, v)) == v,
        pop_int_state(push_int_state(m, v)).isp == m.isp,
        forall|j: int|
            0 <= j < m.isp ==> #[trigger] int_at(pop_int_state(push_int_state(m, v)).int_stack, j)
                == int_at(m.int_stack, j),
{
}

/// `pop_string` undoes `push_string`: popping right after pushing a string gives that string
/// back, with the stack pointer and the stack below the pushed slot as they were.
pub proof fn law_push_then_pop_string(m: StateModel, s: Seq<char>)
    requires
        0 <= m.ssp <= m.string_stack.len(),
    ensures
        top_string(push_string_state(m, s)) == s,
        pop_string_state(push_string_state(m, s)).ssp == m.ssp,
        forall|j: int|
            0 <= j < m.ssp ==> #[trigger] string_at(
                pop_string_state(push_string_state(m, s)).string_stack,
                j,
            ) == string_at(m.string_stack, j),
{
}

/// `pop_frame` undoes the frame that `gosub_frame` pushes: returning from a procedure resumes
/// the caller, whose script, position, locals and frame depth come back; the stacks have given
/// up the callee's arguments.
pub proof fn law_gosub_then_return(m: StateModel, callee: ScriptModel)
    requires
        0 <= m.fp <= m.frames.len(),
    ensures
        ({
            let r = pop_frame_state(setup_state(save_frame_state(m), callee));
            &&& r.script == m.script
            &&& r.pc == m.pc
            &&& r.int_locals == m.int_locals
            &&& r.string_locals == m.string_locals
            &&& r.fp == m.fp
            &&& r.isp == m.isp - callee.int_arg_count
            &&& r.ssp == m.ssp - callee.string_arg_count
            &&& r.int_stack == m.int_stack
            &&& r.string_stack == m.string_stack
        }),
{
}

/// A pointer's bit number leads back to the pointer.
pub proof fn law_pointer_index_roundtrip(p: ScriptPointer)
    ensures
        pointer_of(pointer_index(p)) == Some(p),
{
}

/// `pointer_get` after `pointer_add` finds the pointer, after `pointer_remove` does not, and
/// neither changes what `pointer_get` says of any other pointer.
pub proof fn law_pointer_add_remove(pointers: i32, p: ScriptPointer, q: ScriptPointer)
    ensures
        ((pointers | pointer_flag(p)) & pointer_flag(p)) != 0,
        ((pointers & !pointer_flag(p)) & pointer_flag(p)) == 0,
        p != q ==> (((pointers | pointer_flag(p)) & pointer_flag(q)) != 0) == ((pointers
            & pointer_flag(q)) != 0),
        p != q ==> (((pointers & !pointer_flag(p)) & pointer_flag(q)) != 0) == ((pointers
            & pointer_flag(q)) != 0),
{
    let a = pointer_index(p);
    let b = pointer_index(q);
    assert(0 <= a <= 10 && 0 <= b <= 10);
    assert(p != q ==> a != b);
    assert(((pointers | (1i32 << (a as u32))) & (1i32 << (a as u32))) != 0) by (bit_vector)
        requires
            0 <= a <= 10,
    ;
    assert(((pointers & !(1i32 << (a as u32))) & (1i32 << (a as u32))) == 0) by (bit_vector);
    assert(a != b ==> (((pointers | (1i32 << (a as u32))) & (1i32 << (b as u32))) != 0) == ((
    pointers & (1i32 << (b as u32))) != 0)) by (bit_vector)
        requires
            0 <= a <= 10,
            0 <= b <= 10,
    ;
    assert(a != b ==> (((pointers & !(1i32 << (a as u32))) & (1i32 << (b as u32))) != 0) == ((
    pointers & (1i32 << (b as u32))) != 0)) by (bit_vector)
        requires
            0 <= a <= 10,
            0 <= b <= 10,
    ;
}

/// `pointer_get` after `pointers_set(ps)` finds exactly the pointers of `ps`.
pub proof fn law_pointers_set_then_get(ps: Seq<ScriptPointer>, r: ScriptPointer)
    ensures
        ((pointer_set(ps) & pointer_flag(r)) != 0) == ps.contains(r),
    decreases ps.len(),
{
    if ps.len() == 0 {
        assert((0i32 & pointer_flag(r)) == 0) by (bit_vector);
    } else {
        let init = ps.drop_last();
        law_pointers_set_then_get(init, r);
        let x = pointer_set(init);
        let a = pointer_index(ps.last());
        let b = pointer_index(r);
        assert(0 <= a <= 10 && 0 <= b <= 10);
        assert(a == b <==> ps.last() == r) by {
            law_pointer_index_roundtrip(ps.last());
            law_pointer_index_roundtrip(r);
        }
        assert((((x | (1i32 << (a as u32))) & (1i32 << (b as u32))) != 0) == (((x & (1i32 << (
        b as u32))) != 0) || a == b)) by (bit_vector)
            requires
                0 <= a <= 10,
                0 <= b <= 10,
        ;
        assert(ps.contains(r) == (init.contains(r) || ps.last() == r)) by {
            if ps.contains(r) {
                let i = choose|i: int| 0 <= i < ps.len() && ps[i] == r;
                if i < init.len() {
                    assert(init[i] == r);
                }
            }
            if init.contains(r) {
                let i = choose|i: int| 0 <= i < init.len() && init[i] == r;
                assert(ps[i] == r);
            }
            assert(ps[ps.len() - 1] == ps.last());
        }
    }
}

} // verus!
