use vstd::prelude::*;
use crate::script_file::ScriptModel;
use crate::script_opcode::{
    BRANCH, BRANCH_EQUALS, BRANCH_GREATER_THAN, BRANCH_GREATER_THAN_OR_EQUALS, BRANCH_LESS_THAN,
    BRANCH_LESS_THAN_OR_EQUALS, BRANCH_NOT, GOSUB, GOSUB_WITH_PARAMS, JOIN_STRING, JUMP_WITH_PARAMS,
    MES, POP_INT_DISCARD, POP_INT_LOCAL, POP_STRING_DISCARD, PUSH_CONSTANT_INT, PUSH_CONSTANT_STRING,
    PUSH_INT_LOCAL, RETURN,
};
use crate::script_ops::{joined, op_output, op_state, operand};
use crate::script_state::{
    push_int_state, save_frame_state, setup_state, string_at, top_int, top_string, FrameModel,
    JumpModel, StateModel, FINISHED,
};

verus! {

/// The program position a conditional branch leaves: moved by the operand when `taken`,
/// unchanged otherwise.
pub open spec fn branch_target(m: StateModel, taken: bool) -> i32 {
    if taken {
        (m.pc + operand(m)) as i32
    } else {
        m.pc
    }
}

/// The conditional branches compare the integer pushed first (`a`) with the one pushed second
/// (`b`), pop both, and jump by the operand exactly when the comparison holds: `BRANCH_NOT` on
/// `a != b`, `BRANCH_EQUALS` on `a == b`, `BRANCH_LESS_THAN` on `a < b`, `BRANCH_GREATER_THAN`
/// on `a > b`, `BRANCH_LESS_THAN_OR_EQUALS` on `a <= b` and `BRANCH_GREATER_THAN_OR_EQUALS` on
/// `a >= b`.
pub proof fn law_conditional_branches(m: StateModel, p: Map<usize, ScriptModel>)
    requires
        2 <= m.isp <= m.int_stack.len(),
    ensures
        ({
            let a = m.int_stack[m.isp - 2];
            let b = m.int_stack[m.isp - 1];
            &&& op_state(m, p, BRANCH_NOT as i32).pc == branch_target(m, a != b)
            &&& op_state(m, p, BRANCH_EQUALS as i32).pc == branch_target(m, a == b)
            &&& op_state(m, p, BRANCH_LESS_THAN as i32).pc == branch_target(m, a < b)
            &&& op_state(m, p, BRANCH_GREATER_THAN as i32).pc == branch_target(m, a > b)
            &&& op_state(m, p, BRANCH_LESS_THAN_OR_EQUALS as i32).pc == branch_target(m, a <= b)
            &&& op_state(m, p, BRANCH_GREATER_THAN_OR_EQUALS as i32).pc == branch_target(
                m,
                a >= b,
            )
        }),
        op_state(m, p, BRANCH_NOT as i32).isp == m.isp - 2,
        op_state(m, p, BRANCH_EQUALS as i32).isp == m.isp - 2,
        op_state(m, p, BRANCH_LESS_THAN as i32).isp == m.isp - 2,
        op_state(m, p, BRANCH_GREATER_THAN as i32).isp == m.isp - 2,
        op_state(m, p, BRANCH_LESS_THAN_OR_EQUALS as i32).isp == m.isp - 2,
        op_state(m, p, BRANCH_GREATER_THAN_OR_EQUALS as i32).isp == m.isp - 2,
{
}

/// `BRANCH` always moves the program position by its operand.
pub proof fn law_branch(m: StateModel, p: Map<usize, ScriptModel>)
    ensures
        op_state(m, p, BRANCH as i32).pc == (m.pc + operand(m)) as i32,
        op_state(m, p, BRANCH as i32).isp == m.isp,
{
}

/// `PUSH_CONSTANT_INT` pushes its operand and `PUSH_INT_LOCAL` the local its operand names;
/// `POP_INT_LOCAL` pops the top integer into the local its operand names and leaves the other
/// locals alone; `POP_INT_DISCARD` drops the top integer.
pub proof fn law_int_moves(m: StateModel, p: Map<usize, ScriptModel>)
    requires
        0 <= m.isp <= m.int_stack.len(),
        0 <= operand(m) < m.int_locals.len(),
    ensures
        top_int(op_state(m, p, PUSH_CONSTANT_INT as i32)) == operand(m),
        op_state(m, p, PUSH_CONSTANT_INT as i32).isp == m.isp + 1,
        top_int(op_state(m, p, PUSH_INT_LOCAL as i32)) == m.int_locals[operand(m) as int],
        op_state(m, p, PUSH_INT_LOCAL as i32).isp == m.isp + 1,
        m.isp >= 1 ==> op_state(m, p, POP_INT_LOCAL as i32).int_locals[operand(m) as int]
            == m.int_stack[m.isp - 1],
        m.isp >= 1 ==> forall|j: int|
            0 <= j < m.int_locals.len() && j != operand(m) ==> #[trigger] op_state(
                m,
                p,
                POP_INT_LOCAL as i32,
            ).int_locals[j] == m.int_locals[j],
        m.isp >= 1 ==> op_state(m, p, POP_INT_LOCAL as i32).isp == m.isp - 1,
        op_state(m, p, POP_INT_DISCARD as i32).isp == m.isp - 1,
        op_state(m, p, POP_INT_DISCARD as i32).int_stack == m.int_stack,
{
    let c = push_int_state(m, operand(m));
    assert(op_state(m, p, PUSH_CONSTANT_INT as i32) == c);
    assert(c.int_stack[m.isp as int] == operand(m));
    let l = push_int_state(m, m.int_locals[operand(m) as int]);
    assert(op_state(m, p, PUSH_INT_LOCAL as i32) == l);
    assert(l.int_stack[m.isp as int] == m.int_locals[operand(m) as int]);
}

proof fn lemma_joined_flatten(stack: Seq<Seq<char>>, from: int, n: nat)
    requires
        0 <= from,
        from + n <= stack.len(),
    ensures
        joined(stack, from, n) == stack.subrange(from, from + n).flatten_alt(),
    decreases n,
{
    if n > 0 {
        lemma_joined_flatten(stack, from, (n - 1) as nat);
        let s = stack.subrange(from, from + n);
        assert(s.drop_last() =~= stack.subrange(from, from + n - 1));
        assert(s.last() == string_at(stack, from + n - 1));
    } else {
        assert(stack.subrange(from, from) =~= Seq::<Seq<char>>::empty());
    }
}

/// `JOIN_STRING` with operand `n` pops the top `n` strings and pushes them joined, in the order
/// they were pushed.
pub proof fn law_join_string(m: StateModel, p: Map<usize, ScriptModel>)
    requires
        0 <= operand(m) <= m.ssp <= m.string_stack.len(),
    ensures
        top_string(op_state(m, p, JOIN_STRING as i32)) == m.string_stack.subrange(
            m.ssp - operand(m),
            m.ssp as int,
        ).flatten(),
        op_state(m, p, JOIN_STRING as i32).ssp == m.ssp - operand(m) + 1,
{
    let n = operand(m) as int;
    lemma_joined_flatten(m.string_stack, m.ssp - n, n as nat);
    m.string_stack.subrange(m.ssp - n, m.ssp as int).lemma_flatten_and_flatten_alt_are_equivalent();
}

/// `RETURN` from the outermost script finishes the run and changes nothing else; from a
/// procedure it resumes the caller saved in the top frame: its script, position and locals,
/// one frame less, the stacks untouched.
pub proof fn law_return(m: StateModel, p: Map<usize, ScriptModel>)
    ensures
        m.fp == 0 ==> op_state(m, p, RETURN as i32) == (StateModel { execution: FINISHED, ..m }),
        m.fp != 0 ==> {
            let f = m.frames[m.fp - 1];
            let r = op_state(m, p, RETURN as i32);
            &&& r.script == f.script
            &&& r.pc == f.pc
            &&& r.int_locals == f.int_locals
            &&& r.string_locals == f.string_locals
            &&& r.fp == m.fp - 1
            &&& r.frames == m.frames
            &&& r.isp == m.isp && r.int_stack == m.int_stack
            &&& r.ssp == m.ssp && r.string_stack == m.string_stack
            &&& r.execution == m.execution
        },
{
}

/// What a call into script `s` leaves when `caller` is the state once the call's own operand
/// is taken: the caller saved in a new top frame, `s` running from its start, its integer and
/// string locals holding the arguments taken from the top of the stacks in the order they were
/// pushed and empty values after them.
pub open spec fn called(r: StateModel, caller: StateModel, s: ScriptModel) -> bool {
    let ni = s.int_arg_count as int;
    let ns = s.string_arg_count as int;
    &&& r.script == s
    &&& r.pc == -1
    &&& r.fp == caller.fp + 1
    &&& r.frames[caller.fp as int] == (FrameModel {
        script: caller.script,
        pc: caller.pc,
        int_locals: caller.int_locals,
        string_locals: caller.string_locals,
    })
    &&& r.isp == caller.isp - ni
    &&& r.ssp == caller.ssp - ns
    &&& r.int_locals.len() == s.int_local_count
    &&& r.string_locals.len() == s.string_local_count
    &&& forall|i: int| 0 <= i < ni ==> r.int_locals[i] == caller.int_stack[caller.isp - ni + i]
    &&& forall|i: int| ni <= i < s.int_local_count ==> r.int_locals[i] == 0
    &&& forall|i: int|
        0 <= i < ns ==> r.string_locals[i] == caller.string_stack[caller.ssp - ns + i]
    &&& forall|i: int| ns <= i < s.string_local_count ==> r.string_locals[i] == Seq::<char>::empty()
}

/// Whether script `s` can take its arguments from `m`: it keeps a local for each, and the
/// stacks hold them.
pub open spec fn args_available(m: StateModel, s: ScriptModel) -> bool {
    &&& 0 <= s.int_arg_count <= s.int_local_count
    &&& 0 <= s.string_arg_count <= s.string_local_count
    &&& s.int_arg_count <= m.isp
    &&& s.string_arg_count <= m.ssp
}

proof fn lemma_called(c: StateModel, s: ScriptModel)
    requires
        0 <= c.fp <= c.frames.len(),
        0 <= c.isp <= c.int_stack.len(),
        0 <= c.ssp <= c.string_stack.len(),
        args_available(c, s),
    ensures
        called(setup_state(save_frame_state(c), s), c, s),
{
    let r = setup_state(save_frame_state(c), s);
    let ni = s.int_arg_count as int;
    let ns = s.string_arg_count as int;
    assert forall|i: int| 0 <= i < ni implies r.int_locals[i] == c.int_stack[c.isp - ni + i] by {}
    assert forall|i: int| 0 <= i < ns implies r.string_locals[i] == c.string_stack[c.ssp - ns
        + i] by {}
}

/// `GOSUB_WITH_PARAMS` calls the script its operand names, and `GOSUB` the one named by the
/// integer it pops; a call to a script that is not there changes nothing but that pop.
pub proof fn law_gosub(m: StateModel, p: Map<usize, ScriptModel>)
    requires
        0 <= m.fp <= m.frames.len(),
        0 <= m.isp <= m.int_stack.len(),
        0 <= m.ssp <= m.string_stack.len(),
    ensures
        ({
            let id = operand(m) as usize;
            let r = op_state(m, p, GOSUB_WITH_PARAMS as i32);
            &&& p.contains_key(id) && args_available(m, p[id]) ==> called(r, m, p[id])
            &&& !p.contains_key(id) ==> r == m
        }),
        m.isp >= 1 ==> {
            let id = m.int_stack[m.isp - 1] as usize;
            let caller = StateModel { isp: m.isp - 1, ..m };
            let r = op_state(m, p, GOSUB as i32);
            &&& p.contains_key(id) && args_available(caller, p[id]) ==> called(r, caller, p[id])
            &&& !p.contains_key(id) ==> r == caller
        },
{
    let id = operand(m) as usize;
    if p.contains_key(id) && args_available(m, p[id]) {
        lemma_called(m, p[id]);
    }
    if m.isp >= 1 {
        let id2 = m.int_stack[m.isp - 1] as usize;
        let caller = StateModel { isp: m.isp - 1, ..m };
        assert(op_state(m, p, GOSUB as i32) == if p.contains_key(id2) {
            setup_state(save_frame_state(caller), p[id2])
        } else {
            caller
        });
        if p.contains_key(id2) && args_available(caller, p[id2]) {
            lemma_called(caller, p[id2]);
        }
    }
}

/// `JUMP_WITH_PARAMS` runs the script its operand names in place of the current one: the
/// current script and position are recorded for debugging, every gosub frame is dropped, and
/// the new script starts from its beginning.
pub proof fn law_jump(m: StateModel, p: Map<usize, ScriptModel>)
    requires
        0 <= m.debug_fp <= m.debug_frames.len(),
        p.contains_key(operand(m) as usize),
    ensures
        ({
            let r = op_state(m, p, JUMP_WITH_PARAMS as i32);
            &&& r.script == p[operand(m) as usize]
            &&& r.pc == -1
            &&& r.fp == 0
            &&& r.frames == Seq::<FrameModel>::empty()
            &&& r.debug_fp == m.debug_fp + 1
            &&& r.debug_frames[m.debug_fp as int] == (JumpModel { script: m.script, pc: m.pc })
        }),
{
}

/// `PUSH_CONSTANT_STRING` pushes the string operand of the current instruction,
/// `POP_STRING_DISCARD` drops the top string, and `MES` sends the top string to the active
/// player its operand picks (the first for operand 0, else the second) and pops it.
pub proof fn law_strings(m: StateModel, p: Map<usize, ScriptModel>)
    requires
        0 <= m.ssp <= m.string_stack.len(),
        0 <= m.pc < m.script.string_operands.len(),
    ensures
        top_string(op_state(m, p, PUSH_CONSTANT_STRING as i32)) == m.script.string_operands[m.pc as int],
        op_state(m, p, PUSH_CONSTANT_STRING as i32).ssp == m.ssp + 1,
        op_state(m, p, POP_STRING_DISCARD as i32).ssp == m.ssp - 1,
        op_state(m, p, POP_STRING_DISCARD as i32).string_stack == m.string_stack,
        m.ssp >= 1 ==> op_output(m, MES as i32) == seq![
            (
                (if operand(m) == 0 {
                    m.active_player
                } else {
                    m.active_player2
                })->0,
                m.string_stack[m.ssp - 1],
            ),
        ],
        op_state(m, p, MES as i32).ssp == m.ssp - 1,
{
    let c = op_state(m, p, PUSH_CONSTANT_STRING as i32);
    assert(c.string_stack[m.ssp as int] == m.script.string_operands[m.pc as int]);
}

} // verus!
