use vstd::prelude::*;
use vstd::string::StringExecFns;
use crate::script_file::ScriptModel;
use crate::script_opcode::{
    BRANCH, BRANCH_EQUALS, BRANCH_GREATER_THAN, BRANCH_GREATER_THAN_OR_EQUALS, BRANCH_LESS_THAN,
    BRANCH_LESS_THAN_OR_EQUALS, BRANCH_NOT, DEFINE_ARRAY, GOSUB, GOSUB_WITH_PARAMS, JOIN_STRING,
    JUMP, JUMP_WITH_PARAMS, MES, POP_ARRAY_INT, POP_INT_DISCARD, POP_INT_LOCAL, POP_STRING_DISCARD,
    POP_VARBIT, POP_VARC_INT, POP_VARN, POP_VARP, POP_VARS, PUSH_ARRAY_INT, PUSH_CONSTANT_INT,
    PUSH_CONSTANT_STRING, PUSH_INT_LOCAL, PUSH_VARBIT, PUSH_VARC_INT, PUSH_VARN, PUSH_VARP,
    PUSH_VARS, RETURN, SWITCH,
};
use crate::script_provider::{lookup_model, ScriptProvider};
use crate::script_state::{
    jump_state, pop_frame_state, pop_int_state, pop_string_state, push_int_state,
    push_string_state, save_frame_state, setup_ok, setup_state, string_at, top_int, top_string,
    ScriptState, StateModel, FINISHED,
};
use crate::text::{decimal, int_to_string};

verus! {

/// A message a script sends to a player: the player's identifier and the text.
pub type PlayerMessage = (u32, String);

/// The operand of the current instruction.
pub open spec fn operand(m: StateModel) -> i32 {
    m.script.int_operands[m.pc as int]
}

/// Whether the current instruction has an operand.
pub open spec fn has_operand(m: StateModel) -> bool {
    0 <= m.pc < m.script.int_operands.len()
}

/// Whether `v` fits in an `i32`.
pub open spec fn fits_i32(v: int) -> bool {
    i32::MIN <= v <= i32::MAX
}

/// Whether `op` is one of the core instructions.
pub open spec fn is_core_op(op: i32) -> bool {
    ||| op == PUSH_CONSTANT_INT as i32
    ||| op == PUSH_VARP as i32
    ||| op == POP_VARP as i32
    ||| op == PUSH_CONSTANT_STRING as i32
    ||| op == PUSH_VARN as i32
    ||| op == POP_VARN as i32
    ||| op == BRANCH as i32
    ||| op == BRANCH_NOT as i32
    ||| op == BRANCH_EQUALS as i32
    ||| op == BRANCH_LESS_THAN as i32
    ||| op == BRANCH_GREATER_THAN as i32
    ||| op == PUSH_VARS as i32
    ||| op == POP_VARS as i32
    ||| op == RETURN as i32
    ||| op == GOSUB as i32
    ||| op == JUMP as i32
    ||| op == SWITCH as i32
    ||| op == PUSH_VARBIT as i32
    ||| op == POP_VARBIT as i32
    ||| op == BRANCH_LESS_THAN_OR_EQUALS as i32
    ||| op == BRANCH_GREATER_THAN_OR_EQUALS as i32
    ||| op == PUSH_INT_LOCAL as i32
    ||| op == POP_INT_LOCAL as i32
    ||| op == JOIN_STRING as i32
    ||| op == POP_INT_DISCARD as i32
    ||| op == POP_STRING_DISCARD as i32
    ||| op == GOSUB_WITH_PARAMS as i32
    ||| op == JUMP_WITH_PARAMS as i32
    ||| op == PUSH_VARC_INT as i32
    ||| op == POP_VARC_INT as i32
    ||| op == DEFINE_ARRAY as i32
    ||| op == PUSH_ARRAY_INT as i32
    ||| op == POP_ARRAY_INT as i32
}

/// Whether `op` is an instruction whose handler leaves the state as it is.
pub open spec fn is_inert_op(op: i32) -> bool {
    ||| op == PUSH_VARP as i32
    ||| op == POP_VARP as i32
    ||| op == PUSH_VARN as i32
    ||| op == POP_VARN as i32
    ||| op == PUSH_VARS as i32
    ||| op == POP_VARS as i32
    ||| op == SWITCH as i32
    ||| op == PUSH_VARBIT as i32
    ||| op == POP_VARBIT as i32
    ||| op == PUSH_VARC_INT as i32
    ||| op == POP_VARC_INT as i32
    ||| op == DEFINE_ARRAY as i32
    ||| op == PUSH_ARRAY_INT as i32
    ||| op == POP_ARRAY_INT as i32
}

/// Whether `op` is a two-operand conditional branch.
pub open spec fn is_cond_branch(op: i32) -> bool {
    ||| op == BRANCH_NOT as i32
    ||| op == BRANCH_EQUALS as i32
    ||| op == BRANCH_LESS_THAN as i32
    ||| op == BRANCH_GREATER_THAN as i32
    ||| op == BRANCH_LESS_THAN_OR_EQUALS as i32
    ||| op == BRANCH_GREATER_THAN_OR_EQUALS as i32
}

/// Whether the conditional branch `op` is taken for `a` (pushed first) and `b`.
pub open spec fn branch_taken(op: i32, a: i32, b: i32) -> bool {
    if op == BRANCH_NOT as i32 {
        a != b
    } else if op == BRANCH_EQUALS as i32 {
        a == b
    } else if op == BRANCH_LESS_THAN as i32 {
        a < b
    } else if op == BRANCH_GREATER_THAN as i32 {
        a > b
    } else if op == BRANCH_LESS_THAN_OR_EQUALS as i32 {
        a <= b
    } else {
        a >= b
    }
}

/// Whether the runner has a handler for `op`.
pub open spec fn has_handler(op: i32) -> bool {
    is_core_op(op) || op == MES as i32
}

/// The strings in slots `from..from + n` of a string stack, joined.
pub open spec fn joined(stack: Seq<Seq<char>>, from: int, n: nat) -> Seq<char>
    decreases n,
{
    if n == 0 {
        Seq::empty()
    } else {
        joined(stack, from, (n - 1) as nat) + string_at(stack, from + n - 1)
    }
}

/// The active player picked by the current operand.
pub open spec fn active_player_of(m: StateModel) -> Option<u32> {
    if operand(m) == 0 {
        m.active_player
    } else {
        m.active_player2
    }
}

/// Whether the handler of `op` can run on `m` (with scripts `p` to call into).
pub open spec fn op_ok(m: StateModel, p: Map<usize, ScriptModel>, op: i32) -> bool {
    if op == PUSH_CONSTANT_INT as i32 {
        has_operand(m) && m.isp < usize::MAX
    } else if is_inert_op(op) {
        true
    } else if op == PUSH_CONSTANT_STRING as i32 {
        0 <= m.pc < m.script.string_operands.len() && m.ssp < usize::MAX
    } else if op == BRANCH as i32 {
        has_operand(m) && fits_i32(m.pc + operand(m))
    } else if is_cond_branch(op) {
        &&& m.isp >= 2
        &&& has_operand(m)
        &&& branch_taken(op, top_int(pop_int_state(m)), top_int(m)) ==> fits_i32(
            m.pc + operand(m),
        )
    } else if op == RETURN as i32 {
        m.fp != 0 ==> m.fp <= m.frames.len()
    } else if op == GOSUB as i32 || op == GOSUB_WITH_PARAMS as i32 {
        let m1 = if op == GOSUB as i32 {
            pop_int_state(m)
        } else {
            m
        };
        let id = if op == GOSUB as i32 {
            top_int(m) as usize
        } else {
            operand(m) as usize
        };
        &&& op == GOSUB as i32 ==> m.isp >= 1
        &&& op == GOSUB_WITH_PARAMS as i32 ==> has_operand(m)
        &&& p.contains_key(id) ==> {
            &&& m1.fp <= m1.frames.len()
            &&& m1.fp < usize::MAX
            &&& setup_ok(save_frame_state(m1), p[id])
        }
    } else if op == JUMP as i32 || op == JUMP_WITH_PARAMS as i32 {
        let m1 = if op == JUMP as i32 {
            pop_int_state(m)
        } else {
            m
        };
        let id = if op == JUMP as i32 {
            top_int(m) as usize
        } else {
            operand(m) as usize
        };
        &&& op == JUMP as i32 ==> m.isp >= 1
        &&& op == JUMP_WITH_PARAMS as i32 ==> has_operand(m)
        &&& p.contains_key(id)
        &&& m1.debug_fp <= m1.debug_frames.len()
        &&& m1.debug_fp < usize::MAX
        &&& setup_ok(jump_state(m1), p[id])
    } else if op == PUSH_INT_LOCAL as i32 {
        has_operand(m) && 0 <= operand(m) < m.int_locals.len() && m.isp < usize::MAX
    } else if op == POP_INT_LOCAL as i32 {
        has_operand(m) && 0 <= operand(m) < m.int_locals.len() && m.isp >= 1
    } else if op == JOIN_STRING as i32 {
        has_operand(m) && 0 <= operand(m) <= m.ssp && m.ssp - operand(m) < usize::MAX
    } else if op == POP_INT_DISCARD as i32 {
        m.isp >= 1
    } else if op == POP_STRING_DISCARD as i32 {
        m.ssp >= 1
    } else if op == MES as i32 {
        has_operand(m) && active_player_of(m) is Some && m.ssp >= 1
    } else {
        true
    }
}

/// The state after the handler of `op` runs on `m`.
pub open spec fn op_state(m: StateModel, p: Map<usize, ScriptModel>, op: i32) -> StateModel {
    if op == PUSH_CONSTANT_INT as i32 {
        push_int_state(m, operand(m))
    } else if is_inert_op(op) {
        m
    } else if op == PUSH_CONSTANT_STRING as i32 {
        push_string_state(m, m.script.string_operands[m.pc as int])
    } else if op == BRANCH as i32 {
        StateModel { pc: (m.pc + operand(m)) as i32, ..m }
    } else if is_cond_branch(op) {
        let b = top_int(m);
        let m1 = pop_int_state(m);
        let a = top_int(m1);
        let m2 = pop_int_state(m1);
        if branch_taken(op, a, b) {
            StateModel { pc: (m2.pc + operand(m2)) as i32, ..m2 }
        } else {
            m2
        }
    } else if op == RETURN as i32 {
        if m.fp == 0 {
            StateModel { execution: FINISHED, ..m }
        } else {
            pop_frame_state(m)
        }
    } else if op == GOSUB as i32 || op == GOSUB_WITH_PARAMS as i32 {
        let m1 = if op == GOSUB as i32 {
            pop_int_state(m)
        } else {
            m
        };
        let id = if op == GOSUB as i32 {
            top_int(m) as usize
        } else {
            operand(m) as usize
        };
        if p.contains_key(id) {
            setup_state(save_frame_state(m1), p[id])
        } else {
            m1
        }
    } else if op == JUMP as i32 || op == JUMP_WITH_PARAMS as i32 {
        let m1 = if op == JUMP as i32 {
            pop_int_state(m)
        } else {
            m
        };
        let id = if op == JUMP as i32 {
            top_int(m) as usize
        } else {
            operand(m) as usize
        };
        setup_state(jump_state(m1), p[id])
    } else if op == PUSH_INT_LOCAL as i32 {
        push_int_state(m, m.int_locals[operand(m) as int])
    } else if op == POP_INT_LOCAL as i32 {
        let m1 = pop_int_state(m);
        StateModel { int_locals: m1.int_locals.update(operand(m) as int, top_int(m)), ..m1 }
    } else if op == JOIN_STRING as i32 {
        let n = operand(m) as int;
        let m1 = StateModel { ssp: m.ssp - n, ..m };
        push_string_state(m1, joined(m.string_stack, m.ssp - n, n as nat))
    } else if op == POP_INT_DISCARD as i32 {
        pop_int_state(m)
    } else if op == POP_STRING_DISCARD as i32 {
        pop_string_state(m)
    } else if op == MES as i32 {
        pop_string_state(m)
    } else {
        m
    }
}

/// The messages the handler of `op` sends.
pub open spec fn op_output(m: StateModel, op: i32) -> Seq<(u32, Seq<char>)> {
    if op == MES as i32 {
        seq![(active_player_of(m)->0, top_string(m))]
    } else {
        Seq::empty()
    }
}

/// The views of queued messages.
pub open spec fn messages_view(v: Seq<PlayerMessage>) -> Seq<(u32, Seq<char>)> {
    Seq::new(v.len(), |i: int| (v[i].0, v[i].1@))
}

/// `Unknown opcode: ` followed by the opcode.
pub open spec fn unknown_opcode_message(op: i32) -> Seq<char> {
    "Unknown opcode: "@ + decimal(op as int)
}

/// Pops `n` strings and returns them joined in the order they were pushed.
fn join_strings(state: &mut ScriptState, n: i32) -> (r: String)
    requires
        0 <= n <= old(state)@.ssp,
    ensures
        r@ == joined(old(state)@.string_stack, old(state)@.ssp - n, n as nat),
        final(state)@ == (StateModel { ssp: old(state)@.ssp - n, ..old(state)@ }),
{
    let ghost m = state@;
    let strings = state.pop_strings(n as usize);
    let mut r = String::new();
    let mut k: usize = n as usize;
    while k > 0
        invariant
            k <= n,
            strings@.len() == n,
            forall|j: int| 0 <= j < n ==> #[trigger] strings@[j]@ == string_at(m.string_stack, m.ssp - 1 - j),
            r@ == joined(m.string_stack, m.ssp - n, (n - k) as nat),
        decreases k,
    {
        k -= 1;
        r.append(strings[k].as_str());
        assert(strings@[k as int]@ == string_at(m.string_stack, m.ssp - n + (n - k) - 1));
    }
    r
}

/// Runs the handler of `opcode` on `state`; an error names an opcode without a handler
/// (the state is then unchanged). Messages the handler sends are appended to `outbox`.
pub fn execute_opcode(
    state: &mut ScriptState,
    provider: &ScriptProvider,
    opcode: i32,
    outbox: &mut Vec<PlayerMessage>,
) -> (r: Result<(), String>)
    requires
        has_handler(opcode) ==> op_ok(old(state)@, lookup_model(provider), opcode),
    ensures
        !has_handler(opcode) ==> (r matches Err(msg) && msg@ == unknown_opcode_message(opcode))
            && final(state)@ == old(state)@ && final(outbox)@ == old(outbox)@,
        has_handler(opcode) ==> r is Ok && final(state)@ == op_state(
            old(state)@,
            lookup_model(provider),
            opcode,
        ) && messages_view(final(outbox)@) == messages_view(old(outbox)@) + op_output(
            old(state)@,
            opcode,
        ),
{
    let ghost m = state@;
    let ghost p = lookup_model(provider);
    proof {
        reveal_strlit("Unknown opcode: ");
    }
    if opcode == PUSH_CONSTANT_INT as i32 {
        let v = state.get_int_operand();
        state.push_int(v);
    } else if opcode == PUSH_VARP as i32 || opcode == POP_VARP as i32 || opcode == PUSH_VARN as i32
        || opcode == POP_VARN as i32 || opcode == PUSH_VARS as i32 || opcode == POP_VARS as i32
        || opcode == SWITCH as i32 || opcode == PUSH_VARBIT as i32 || opcode == POP_VARBIT as i32
        || opcode == PUSH_VARC_INT as i32 || opcode == POP_VARC_INT as i32 || opcode
        == DEFINE_ARRAY as i32 || opcode == PUSH_ARRAY_INT as i32 || opcode
        == POP_ARRAY_INT as i32 {
    } else if opcode == PUSH_CONSTANT_STRING as i32 {
        let s = String::from_str(state.get_string_operand());
        state.push_string(s);
    } else if opcode == BRANCH as i32 {
        state.pc = state.pc + state.get_int_operand();
    } else if opcode == BRANCH_NOT as i32 || opcode == BRANCH_EQUALS as i32 || opcode
        == BRANCH_LESS_THAN as i32 || opcode == BRANCH_GREATER_THAN as i32 || opcode
        == BRANCH_LESS_THAN_OR_EQUALS as i32 || opcode == BRANCH_GREATER_THAN_OR_EQUALS as i32 {
        let b = state.pop_int();
        let a = state.pop_int();
        let taken = if opcode == BRANCH_NOT as i32 {
            a != b
        } else if opcode == BRANCH_EQUALS as i32 {
            a == b
        } else if opcode == BRANCH_LESS_THAN as i32 {
            a < b
        } else if opcode == BRANCH_GREATER_THAN as i32 {
            a > b
        } else if opcode == BRANCH_LESS_THAN_OR_EQUALS as i32 {
            a <= b
        } else {
            a >= b
        };
        if taken {
            state.pc = state.pc + state.get_int_operand();
        }
    } else if opcode == RETURN as i32 {
        if state.fp == 0 {
            state.execution = FINISHED;
        } else {
            state.pop_frame();
        }
    } else if opcode == GOSUB as i32 || opcode == GOSUB_WITH_PARAMS as i32 {
        let id = if opcode == GOSUB as i32 {
            state.pop_int() as usize
        } else {
            state.get_int_operand() as usize
        };
        match provider.get(id) {
            Some(proc) => state.gosub_frame(proc),
            None => {},
        }
    } else if opcode == JUMP as i32 || opcode == JUMP_WITH_PARAMS as i32 {
        let id = if opcode == JUMP as i32 {
            state.pop_int() as usize
        } else {
            state.get_int_operand() as usize
        };
        let label = provider.get(id);
        state.goto_frame(label.unwrap());
    } else if opcode == PUSH_INT_LOCAL as i32 {
        let v = state.int_locals[state.get_int_operand() as usize];
        state.push_int(v);
    } else if opcode == POP_INT_LOCAL as i32 {
        let operand = state.get_int_operand() as usize;
        let v = state.pop_int();
        state.int_locals.set(operand, v);
    } else if opcode == JOIN_STRING as i32 {
        let count = state.get_int_operand();
        let joined_string = join_strings(state, count);
        state.push_string(joined_string);
    } else if opcode == POP_INT_DISCARD as i32 {
        state.isp = state.isp - 1;
    } else if opcode == POP_STRING_DISCARD as i32 {
        state.ssp = state.ssp - 1;
    } else if opcode == MES as i32 {
        let pid = match state.get_active_player() {
            Ok(pid) => pid,
            Err(_) => 0,
        };
        let message = state.pop_string();
        let ghost before = outbox@;
        outbox.push((pid, message));
        assert(messages_view(outbox@) =~= messages_view(before) + op_output(m, opcode));
    } else {
        let mut msg = String::new();
        msg.append("Unknown opcode: ");
        let digits = int_to_string(opcode as i64);
        msg.append(digits.as_str());
        return Err(msg);
    }
    proof {
        if opcode != MES as i32 {
            assert(messages_view(outbox@) =~= messages_view(outbox@) + op_output(m, opcode));
        }
    }
    assert(state@ =~= op_state(m, p, opcode));
    Ok(())
}

/// The opcodes that the core handlers cover.
pub fn get_core_ops() -> (ops: Vec<i32>)
    ensures
        forall|op: i32| ops@.contains(op) <==> is_core_op(op),
{
    let ops = vec![
        PUSH_CONSTANT_INT as i32,
        PUSH_VARP as i32,
        POP_VARP as i32,
        PUSH_CONSTANT_STRING as i32,
        PUSH_VARN as i32,
        POP_VARN as i32,
        BRANCH as i32,
        BRANCH_NOT as i32,
        BRANCH_EQUALS as i32,
        BRANCH_LESS_THAN as i32,
        BRANCH_GREATER_THAN as i32,
        PUSH_VARS as i32,
        POP_VARS as i32,
        RETURN as i32,
        GOSUB as i32,
        JUMP as i32,
        SWITCH as i32,
        PUSH_VARBIT as i32,
        POP_VARBIT as i32,
        BRANCH_LESS_THAN_OR_EQUALS as i32,
        BRANCH_GREATER_THAN_OR_EQUALS as i32,
        PUSH_INT_LOCAL as i32,
        POP_INT_LOCAL as i32,
        JOIN_STRING as i32,
        POP_INT_DISCARD as i32,
        POP_STRING_DISCARD as i32,
        GOSUB_WITH_PARAMS as i32,
        JUMP_WITH_PARAMS as i32,
        PUSH_VARC_INT as i32,
        POP_VARC_INT as i32,
        DEFINE_ARRAY as i32,
        PUSH_ARRAY_INT as i32,
        POP_ARRAY_INT as i32,
    ];
    assert forall|op: i32| is_core_op(op) implies ops@.contains(op) by {
        if op == PUSH_CONSTANT_INT as i32 { assert(ops@[0] == op); }
        else if op == PUSH_VARP as i32 { assert(ops@[1] == op); }
        else if op == POP_VARP as i32 { assert(ops@[2] == op); }
        else if op == PUSH_CONSTANT_STRING as i32 { assert(ops@[3] == op); }
        else if op == PUSH_VARN as i32 { assert(ops@[4] == op); }
        else if op == POP_VARN as i32 { assert(ops@[5] == op); }
        else if op == BRANCH as i32 { assert(ops@[6] == op); }
        else if op == BRANCH_NOT as i32 { assert(ops@[7] == op); }
        else if op == BRANCH_EQUALS as i32 { assert(ops@[8] == op); }
        else if op == BRANCH_LESS_THAN as i32 { assert(ops@[9] == op); }
        else if op == BRANCH_GREATER_THAN as i32 { assert(ops@[10] == op); }
        else if op == PUSH_VARS as i32 { assert(ops@[11] == op); }
        else if op == POP_VARS as i32 { assert(ops@[12] == op); }
        else if op == RETURN as i32 { assert(ops@[13] == op); }
        else if op == GOSUB as i32 { assert(ops@[14] == op); }
        else if op == JUMP as i32 { assert(ops@[15] == op); }
        else if op == SWITCH as i32 { assert(ops@[16] == op); }
        else if op == PUSH_VARBIT as i32 { assert(ops@[17] == op); }
        else if op == POP_VARBIT as i32 { assert(ops@[18] == op); }
        else if op == BRANCH_LESS_THAN_OR_EQUALS as i32 { assert(ops@[19] == op); }
        else if op == BRANCH_GREATER_THAN_OR_EQUALS as i32 { assert(ops@[20] == op); }
        else if op == PUSH_INT_LOCAL as i32 { assert(ops@[21] == op); }
        else if op == POP_INT_LOCAL as i32 { assert(ops@[22] == op); }
        else if op == JOIN_STRING as i32 { assert(ops@[23] == op); }
        else if op == POP_INT_DISCARD as i32 { assert(ops@[24] == op); }
        else if op == POP_STRING_DISCARD as i32 { assert(ops@[25] == op); }
        else if op == GOSUB_WITH_PARAMS as i32 { assert(ops@[26] == op); }
        else if op == JUMP_WITH_PARAMS as i32 { assert(ops@[27] == op); }
        else if op == PUSH_VARC_INT as i32 { assert(ops@[28] == op); }
        else if op == POP_VARC_INT as i32 { assert(ops@[29] == op); }
        else if op == DEFINE_ARRAY as i32 { assert(ops@[30] == op); }
        else if op == PUSH_ARRAY_INT as i32 { assert(ops@[31] == op); }
        else { assert(ops@[32] == op); }
    }
    ops
}

/// The opcodes that the player handlers cover.
pub fn get_player_ops() -> (ops: Vec<i32>)
    ensures
        ops@ == seq![MES as i32],
{
    vec![MES as i32]
}

} // verus!
