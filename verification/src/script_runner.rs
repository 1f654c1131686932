use vstd::prelude::*;
use crate::script_file::{ScriptFile, ScriptModel};
use crate::script_ops::{
    execute_opcode, get_core_ops, has_handler, is_core_op, messages_view, op_ok, op_output,
    op_state, PlayerMessage,
};
use crate::script_opcode::MES;
use crate::script_provider::{lookup_model, ScriptProvider};
use crate::script_state::{
    numbers_of, texts_of, EntityType, FrameModel, ScriptArgument, ScriptState, StateModel, ABORTED,
    FINISHED, RUNNING,
};

verus! {

/// The most instructions a script may run (outside benchmarks) before it is aborted.
pub const OPCOUNT_LIMIT: i32 = 500_000;

/// The state at the start of a step: one more instruction counted, the next pc.
pub open spec fn step_start(m: StateModel) -> StateModel {
    StateModel { opcount: (m.opcount + 1) as i32, pc: (m.pc + 1) as i32, ..m }
}

/// The opcode at `m.pc`.
pub open spec fn opcode_at(m: StateModel) -> i32 {
    m.script.opcodes[m.pc as int] as i32
}

/// Whether a step from `m` stops the run before any handler runs, and with what
/// execution state.
pub open spec fn step_stop(m1: StateModel, bench: bool) -> Option<i32> {
    if m1.pc >= (m1.script.opcodes.len() as i32) {
        Some(FINISHED)
    } else if !bench && m1.opcount > OPCOUNT_LIMIT {
        Some(ABORTED)
    } else if 0 <= m1.pc && !has_handler(opcode_at(m1)) {
        Some(ABORTED)
    } else {
        None
    }
}

/// No handler changes the instruction counter.
pub proof fn lemma_op_keeps_opcount(m: StateModel, p: Map<usize, ScriptModel>, op: i32)
    ensures
        op_state(m, p, op).opcount == m.opcount,
{
}

/// Whether running from `m` never reaches a step whose handler cannot run (nor overflows
/// the instruction counter or the pc, nor reads an instruction at a negative pc).
pub open spec fn run_ok(m: StateModel, p: Map<usize, ScriptModel>, bench: bool) -> bool
    decreases i32::MAX - m.opcount,
{
    if m.execution != RUNNING {
        true
    } else if m.opcount >= i32::MAX || m.pc >= i32::MAX {
        false
    } else {
        let m1 = step_start(m);
        if step_stop(m1, bench) is Some {
            true
        } else if m1.pc < 0 {
            false
        } else {
            let op = opcode_at(m1);
            proof {
                lemma_op_keeps_opcount(m1, p, op);
            }
            op_ok(m1, p, op) && run_ok(op_state(m1, p, op), p, bench)
        }
    }
}

/// The state a run from `m` ends in.
pub open spec fn run_final(m: StateModel, p: Map<usize, ScriptModel>, bench: bool) -> StateModel
    decreases i32::MAX - m.opcount,
{
    if m.execution != RUNNING || m.opcount >= i32::MAX || m.pc >= i32::MAX {
        m
    } else {
        let m1 = step_start(m);
        match step_stop(m1, bench) {
            Some(e) => StateModel { execution: e, ..m1 },
            None => if m1.pc < 0 {
                m1
            } else {
                let op = opcode_at(m1);
                proof {
                    lemma_op_keeps_opcount(m1, p, op);
                }
                run_final(op_state(m1, p, op), p, bench)
            },
        }
    }
}

/// The messages a run from `m` sends.
pub open spec fn run_output(m: StateModel, p: Map<usize, ScriptModel>, bench: bool) -> Seq<
    (u32, Seq<char>),
>
    decreases i32::MAX - m.opcount,
{
    if m.execution != RUNNING || m.opcount >= i32::MAX || m.pc >= i32::MAX {
        Seq::empty()
    } else {
        let m1 = step_start(m);
        match step_stop(m1, bench) {
            Some(e) => Seq::empty(),
            None => if m1.pc < 0 {
                Seq::empty()
            } else {
                let op = opcode_at(m1);
                proof {
                    lemma_op_keeps_opcount(m1, p, op);
                }
                op_output(m1, op) + run_output(op_state(m1, p, op), p, bench)
            },
        }
    }
}

/// The state `reset` leaves.
pub open spec fn reset_state(m: StateModel) -> StateModel {
    StateModel {
        pc: -1i32,
        frames: Seq::empty(),
        fp: 0,
        int_stack: Seq::empty(),
        isp: 0,
        string_stack: Seq::empty(),
        ssp: 0,
        int_locals: Seq::empty(),
        string_locals: Seq::empty(),
        pointers: 0,
        ..m
    }
}

/// The state a run starts from: reset when asked, and back to running (recording the
/// previous execution state) when it was not running.
pub open spec fn run_start(m: StateModel, reset: bool) -> StateModel {
    let m0 = if reset {
        reset_state(m)
    } else {
        m
    };
    if m0.execution != RUNNING {
        StateModel {
            execution_history: m0.execution_history.push(m0.execution),
            execution: RUNNING,
            ..m0
        }
    } else {
        m0
    }
}

/// The pointer bit of the first slot for an entity's kind.
pub open spec fn primary_bit(e: EntityType) -> i32 {
    match e {
        EntityType::Player(_) => 1i32 << 0u32,
        EntityType::Npc(_) => 1i32 << 4u32,
        EntityType::Loc(_) => 1i32 << 6u32,
        EntityType::Obj(_) => 1i32 << 8u32,
    }
}

/// The pointer bit of the second slot for an entity's kind.
pub open spec fn secondary_bit(e: EntityType) -> i32 {
    match e {
        EntityType::Player(_) => 1i32 << 1u32,
        EntityType::Npc(_) => 1i32 << 5u32,
        EntityType::Loc(_) => 1i32 << 7u32,
        EntityType::Obj(_) => 1i32 << 9u32,
    }
}

/// `m` with `e` in the first (or, when `second`, the second) slot of its kind and that
/// slot's pointer set.
pub open spec fn with_entity(m: StateModel, e: EntityType, second: bool) -> StateModel {
    match e {
        EntityType::Player(id) => if second {
            StateModel { active_player2: Some(id), pointers: m.pointers | secondary_bit(e), ..m }
        } else {
            StateModel { active_player: Some(id), pointers: m.pointers | primary_bit(e), ..m }
        },
        EntityType::Npc(id) => if second {
            StateModel { active_npc2: Some(id), pointers: m.pointers | secondary_bit(e), ..m }
        } else {
            StateModel { active_npc: Some(id), pointers: m.pointers | primary_bit(e), ..m }
        },
        EntityType::Loc(id) => if second {
            StateModel { active_loc2: Some(id), pointers: m.pointers | secondary_bit(e), ..m }
        } else {
            StateModel { active_loc: Some(id), pointers: m.pointers | primary_bit(e), ..m }
        },
        EntityType::Obj(id) => if second {
            StateModel { active_obj2: Some(id), pointers: m.pointers | secondary_bit(e), ..m }
        } else {
            StateModel { active_obj: Some(id), pointers: m.pointers | primary_bit(e), ..m }
        },
    }
}

/// Whether two entities are of the same kind.
pub open spec fn same_kind(a: EntityType, b: EntityType) -> bool {
    match (a, b) {
        (EntityType::Player(_), EntityType::Player(_)) => true,
        (EntityType::Npc(_), EntityType::Npc(_)) => true,
        (EntityType::Loc(_), EntityType::Loc(_)) => true,
        (EntityType::Obj(_), EntityType::Obj(_)) => true,
        _ => false,
    }
}

/// The arguments as a sequence, when there are any.
pub open spec fn args_view(args: Option<Vec<ScriptArgument>>) -> Option<Seq<ScriptArgument>> {
    match args {
        Some(a) => Some(a@),
        None => None,
    }
}

/// The state `new` builds to run `script` from the start with `args`: numeric arguments
/// become the first integer locals and text arguments the first string locals.
pub open spec fn fresh_state(script: ScriptModel, args: Option<Seq<ScriptArgument>>) -> StateModel {
    StateModel {
        script,
        trigger: script.lookup_key & 0xFF,
        execution: RUNNING,
        execution_history: Seq::empty(),
        pc: -1i32,
        opcount: 0,
        frames: Seq::empty(),
        fp: 0,
        debug_frames: Seq::empty(),
        debug_fp: 0,
        int_stack: Seq::empty(),
        isp: 0,
        string_stack: Seq::empty(),
        ssp: 0,
        int_locals: match args {
            Some(a) => numbers_of(a),
            None => Seq::empty(),
        },
        string_locals: match args {
            Some(a) => texts_of(a),
            None => Seq::empty(),
        },
        pointers: 0,
        self_entity: None,
        active_player: None,
        active_player2: None,
        active_npc: None,
        active_npc2: None,
        active_loc: None,
        active_loc2: None,
        active_obj: None,
        active_obj2: None,
        split_pages: Seq::empty(),
        split_mesanim: -1i32,
    }
}

/// The state `init` builds on top of a fresh state `m`.
pub open spec fn init_state(
    m: StateModel,
    self_entity: Option<EntityType>,
    target_entity: Option<EntityType>,
) -> StateModel {
    let m1 = match self_entity {
        Some(e) => with_entity(StateModel { self_entity: Some(e), ..m }, e, false),
        None => m,
    };
    match target_entity {
        Some(t) => with_entity(
            m1,
            t,
            self_entity matches Some(e) && same_kind(e, t),
        ),
        None => m1,
    }
}

/// Runs scripts.
pub struct ScriptRunner;

impl ScriptRunner {
    /// The opcodes that have handlers: the player handlers, then the core handlers.
    pub fn get_handlers() -> (ops: Vec<i32>)
        ensures
            forall|op: i32| ops@.contains(op) <==> has_handler(op),
    {
        let mut ops: Vec<i32> = Vec::new();
        ops.push(MES as i32);
        let core = get_core_ops();
        let mut i: usize = 0;
        while i < core.len()
            invariant
                i <= core@.len(),
                ops@ == seq![MES as i32] + core@.take(i as int),
            decreases core@.len() - i,
        {
            ops.push(core[i]);
            assert(core@.take(i + 1) =~= core@.take(i as int).push(core@[i as int]));
            i += 1;
        }
        assert(core@.take(core@.len() as int) =~= core@);
        assert forall|op: i32| ops@.contains(op) <==> has_handler(op) by {
            if ops@.contains(op) {
                let k = choose|k: int| 0 <= k < ops@.len() && ops@[k] == op;
                if k > 0 {
                    assert(core@[k - 1] == op);
                    assert(core@.contains(op));
                }
            }
            if is_core_op(op) {
                assert(core@.contains(op));
                let k = choose|k: int| 0 <= k < core@.len() && core@[k] == op;
                assert(ops@[k + 1] == op);
            }
            if op == MES as i32 {
                assert(ops@[0] == op);
            }
        }
        ops
    }

    /// Stores `e` in the first (or second) slot of its kind and sets that slot's pointer.
    fn put_entity(state: &mut ScriptState, e: EntityType, second: bool)
        ensures
            final(state)@ == with_entity(old(state)@, e, second),
    {
        match e {
            EntityType::Player(id) => if second {
                state.active_player2 = Some(id);
                state.pointers = state.pointers | (1i32 << 1u32);
            } else {
                state.active_player = Some(id);
                state.pointers = state.pointers | (1i32 << 0u32);
            },
            EntityType::Npc(id) => if second {
                state.active_npc2 = Some(id);
                state.pointers = state.pointers | (1i32 << 5u32);
            } else {
                state.active_npc = Some(id);
                state.pointers = state.pointers | (1i32 << 4u32);
            },
            EntityType::Loc(id) => if second {
                state.active_loc2 = Some(id);
                state.pointers = state.pointers | (1i32 << 7u32);
            } else {
                state.active_loc = Some(id);
                state.pointers = state.pointers | (1i32 << 6u32);
            },
            EntityType::Obj(id) => if second {
                state.active_obj2 = Some(id);
                state.pointers = state.pointers | (1i32 << 9u32);
            } else {
                state.active_obj = Some(id);
                state.pointers = state.pointers | (1i32 << 8u32);
            },
        }
    }

    /// A fresh state for `script` with the entity it runs on in the first slot of its kind
    /// and the target in the second slot when it is of the same kind, the first otherwise;
    /// each filled slot's pointer is set.
    pub fn init(
        script: ScriptFile,
        self_entity: Option<EntityType>,
        target_entity: Option<EntityType>,
        args: Option<Vec<ScriptArgument>>,
    ) -> (s: ScriptState)
        ensures
            s@ == init_state(fresh_state(script@, args_view(args)), self_entity, target_entity),
    {
        let ghost fresh = fresh_state(script@, args_view(args));
        let mut state = ScriptState::new(script, args);
        let ghost m = state@;
        assert(m.int_locals =~= fresh.int_locals);
        assert(m.string_locals =~= fresh.string_locals);
        assert(m =~= fresh);
        if self_entity.is_none() && target_entity.is_none() {
            assert(init_state(m, self_entity, target_entity) == state@);
            return state;
        }
        if let Some(self_ent) = self_entity {
            state.self_entity = Some(self_ent);
            Self::put_entity(&mut state, self_ent, false);
        }
        if let Some(target) = target_entity {
            let has_same_type = match (self_entity, target) {
                (Some(EntityType::Player(_)), EntityType::Player(_)) => true,
                (Some(EntityType::Npc(_)), EntityType::Npc(_)) => true,
                (Some(EntityType::Loc(_)), EntityType::Loc(_)) => true,
                (Some(EntityType::Obj(_)), EntityType::Obj(_)) => true,
                _ => false,
            };
            Self::put_entity(&mut state, target, has_same_type);
        }
        assert(init_state(m, self_entity, target_entity) =~= state@);
        state
    }

    /// Runs the state's script until it stops running: past its last instruction it
    /// finishes; past the instruction limit (outside benchmarks) or at an opcode without a
    /// handler it is aborted. Returns the final execution state. Messages the script sends
    /// are appended to `outbox`.
    pub fn execute(
        state: &mut ScriptState,
        provider: &ScriptProvider,
        reset: bool,
        benchmark: bool,
        outbox: &mut Vec<PlayerMessage>,
    ) -> (r: i32)
        requires
            run_ok(run_start(old(state)@, reset), lookup_model(provider), benchmark),
        ensures
            final(state)@ == run_final(run_start(old(state)@, reset), lookup_model(provider), benchmark),
            r == final(state)@.execution,
            messages_view(final(outbox)@) == messages_view(old(outbox)@) + run_output(
                run_start(old(state)@, reset),
                lookup_model(provider),
                benchmark,
            ),
    {
        let ghost p = lookup_model(provider);
        if reset {
            state.reset();
        }
        if state.execution != RUNNING {
            state.execution_history.push(state.execution);
            state.execution = RUNNING;
        }
        let ghost start = run_start(old(state)@, reset);
        assert(state@ =~= start);
        let ghost target = run_final(start, p, benchmark);
        let ghost out0 = messages_view(outbox@);
        assert(out0 + run_output(start, p, benchmark) =~= messages_view(old(outbox)@) + run_output(
            start,
            p,
            benchmark,
        ));
        while state.execution == RUNNING
            invariant
                p == lookup_model(provider),
                start == run_start(old(state)@, reset),
                target == run_final(start, p, benchmark),
                run_ok(state@, p, benchmark),
                run_final(state@, p, benchmark) == target,
                messages_view(outbox@) + run_output(state@, p, benchmark) == messages_view(
                    old(outbox)@,
                ) + run_output(start, p, benchmark),
            ensures
                state@ == target,
                messages_view(outbox@) == messages_view(old(outbox)@) + run_output(
                    start,
                    p,
                    benchmark,
                ),
            decreases i32::MAX - state.opcount,
        {
            let ghost m = state@;
            state.opcount = state.opcount + 1;
            state.pc = state.pc + 1;
            let ghost m1 = state@;
            assert(m1 == step_start(m));
            let opcodes_len = state.script.opcodes.len() as i32;
            if state.pc >= opcodes_len {
                state.execution = FINISHED;
                assert(state@ =~= run_final(m, p, benchmark));
                assert(run_output(m, p, benchmark) =~= Seq::<(u32, Seq<char>)>::empty());
                assert(messages_view(outbox@) + Seq::<(u32, Seq<char>)>::empty() =~= messages_view(
                    outbox@,
                ));
                return state.execution;
            }
            if !benchmark && state.opcount > OPCOUNT_LIMIT {
                state.execution = ABORTED;
                assert(state@ =~= run_final(m, p, benchmark));
                assert(run_output(m, p, benchmark) =~= Seq::<(u32, Seq<char>)>::empty());
                assert(messages_view(outbox@) + Seq::<(u32, Seq<char>)>::empty() =~= messages_view(
                    outbox@,
                ));
                return state.execution;
            }
            let opcode = state.script.opcodes[state.pc as usize] as i32;
            assert(opcode == opcode_at(m1));
            let ghost before = messages_view(outbox@);
            match execute_opcode(state, provider, opcode, outbox) {
                Ok(()) => {
                    assert(before + op_output(m1, opcode) + run_output(state@, p, benchmark)
                        =~= before + run_output(m, p, benchmark));
                },
                Err(_) => {
                    state.execution = ABORTED;
                    assert(state@ =~= run_final(m, p, benchmark));
                    assert(run_output(m, p, benchmark) =~= Seq::<(u32, Seq<char>)>::empty());
                    assert(messages_view(outbox@) + Seq::<(u32, Seq<char>)>::empty()
                        =~= messages_view(outbox@));
                    return state.execution;
                },
            }
        }
        state.execution
    }

    /// Runs the handler of `opcode` on `state`; an error names an opcode without a handler.
    pub fn execute_opcode(
        state: &mut ScriptState,
        provider: &ScriptProvider,
        opcode: i32,
        outbox: &mut Vec<PlayerMessage>,
    ) -> (r: Result<(), String>)
        requires
            has_handler(opcode) ==> op_ok(old(state)@, lookup_model(provider), opcode),
        ensures
            !has_handler(opcode) ==> r is Err && final(state)@ == old(state)@ && final(outbox)@
                == old(outbox)@,
            has_handler(opcode) ==> r is Ok && final(state)@ == op_state(
                old(state)@,
                lookup_model(provider),
                opcode,
            ) && messages_view(final(outbox)@) == messages_view(old(outbox)@) + op_output(
                old(state)@,
                opcode,
            ),
    {
        execute_opcode(state, provider, opcode, outbox)
    }
}

} // verus!
