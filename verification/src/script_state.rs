use vstd::prelude::*;
use vstd::string::StringExecFns;
use std::sync::Arc;
use crate::script_file::{ScriptFile, ScriptModel};
use crate::script_pointer::{pointer_index, pointer_name, pointer_of, ScriptPointer};

verus! {

/// An entity that a script runs on or against, by its identifier.
#[derive(Clone, Copy, PartialEq, Eq, Structural)]
pub enum EntityType {
    Player(u32),
    Npc(u32),
    Loc(u32),
    Obj(u32),
}

/// An argument passed to a script when it starts.
pub enum ScriptArgument {
    Number(i32),
    String(String),
}

/// The caller's context saved by a `gosub`.
pub struct GosubStackFrame {
    pub script: Arc<ScriptFile>,
    pub pc: i32,
    pub int_locals: Vec<i32>,
    pub string_locals: Vec<String>,
}

/// The script and position left by a `jump`, kept for debugging.
pub struct JumpStackFrame {
    pub script: Arc<ScriptFile>,
    pub pc: i32,
}

/// The contents of a `GosubStackFrame`.
pub struct FrameModel {
    pub script: ScriptModel,
    pub pc: i32,
    pub int_locals: Seq<i32>,
    pub string_locals: Seq<Seq<char>>,
}

/// The contents of a `JumpStackFrame`.
pub struct JumpModel {
    pub script: ScriptModel,
    pub pc: i32,
}

impl View for GosubStackFrame {
    type V = FrameModel;

    open spec fn view(&self) -> FrameModel {
        FrameModel {
            script: self.script@,
            pc: self.pc,
            int_locals: self.int_locals@,
            string_locals: self.string_locals.deep_view(),
        }
    }
}

impl View for JumpStackFrame {
    type V = JumpModel;

    open spec fn view(&self) -> JumpModel {
        JumpModel { script: self.script@, pc: self.pc }
    }
}

/// The state of one running script.
pub struct ScriptState {
    pub script: Arc<ScriptFile>,
    pub trigger: i32,
    pub execution: i32,
    pub execution_history: Vec<i32>,
    pub pc: i32,
    pub opcount: i32,
    pub frames: Vec<GosubStackFrame>,
    pub fp: usize,
    pub debug_frames: Vec<JumpStackFrame>,
    pub debug_fp: usize,
    pub int_stack: Vec<i32>,
    pub isp: usize,
    pub string_stack: Vec<String>,
    pub ssp: usize,
    pub int_locals: Vec<i32>,
    pub string_locals: Vec<String>,
    pub pointers: i32,
    pub self_entity: Option<EntityType>,
    pub active_player: Option<u32>,
    pub active_player2: Option<u32>,
    pub active_npc: Option<u32>,
    pub active_npc2: Option<u32>,
    pub active_loc: Option<u32>,
    pub active_loc2: Option<u32>,
    pub active_obj: Option<u32>,
    pub active_obj2: Option<u32>,
    pub split_pages: Vec<Vec<String>>,
    pub split_mesanim: i32,
}

/// The contents of a `ScriptState`.
#[verifier::ext_equal]
pub struct StateModel {
    pub script: ScriptModel,
    pub trigger: i32,
    pub execution: i32,
    pub execution_history: Seq<i32>,
    pub pc: i32,
    pub opcount: i32,
    pub frames: Seq<FrameModel>,
    pub fp: int,
    pub debug_frames: Seq<JumpModel>,
    pub debug_fp: int,
    pub int_stack: Seq<i32>,
    pub isp: int,
    pub string_stack: Seq<Seq<char>>,
    pub ssp: int,
    pub int_locals: Seq<i32>,
    pub string_locals: Seq<Seq<char>>,
    pub pointers: i32,
    pub self_entity: Option<EntityType>,
    pub active_player: Option<u32>,
    pub active_player2: Option<u32>,
    pub active_npc: Option<u32>,
    pub active_npc2: Option<u32>,
    pub active_loc: Option<u32>,
    pub active_loc2: Option<u32>,
    pub active_obj: Option<u32>,
    pub active_obj2: Option<u32>,
    pub split_pages: Seq<Seq<Seq<char>>>,
    pub split_mesanim: i32,
}

impl View for ScriptState {
    type V = StateModel;

    open spec fn view(&self) -> StateModel {
        StateModel {
            script: self.script@,
            trigger: self.trigger,
            execution: self.execution,
            execution_history: self.execution_history@,
            pc: self.pc,
            opcount: self.opcount,
            frames: Seq::new(self.frames@.len(), |i: int| self.frames@[i]@),
            fp: self.fp as int,
            debug_frames: Seq::new(self.debug_frames@.len(), |i: int| self.debug_frames@[i]@),
            debug_fp: self.debug_fp as int,
            int_stack: self.int_stack@,
            isp: self.isp as int,
            string_stack: self.string_stack.deep_view(),
            ssp: self.ssp as int,
            int_locals: self.int_locals@,
            string_locals: self.string_locals.deep_view(),
            pointers: self.pointers,
            self_entity: self.self_entity,
            active_player: self.active_player,
            active_player2: self.active_player2,
            active_npc: self.active_npc,
            active_npc2: self.active_npc2,
            active_loc: self.active_loc,
            active_loc2: self.active_loc2,
            active_obj: self.active_obj,
            active_obj2: self.active_obj2,
            split_pages: self.split_pages.deep_view(),
            split_mesanim: self.split_mesanim,
        }
    }
}

/// Execution states.
pub const ABORTED: i32 = -1;
pub const RUNNING: i32 = 0;
pub const FINISHED: i32 = 1;
pub const SUSPENDED: i32 = 2;
pub const PAUSEBUTTON: i32 = 3;
pub const COUNTDIALOG: i32 = 4;
pub const NPC_SUSPENDED: i32 = 5;
pub const WORLD_SUSPENDED: i32 = 6;

/// The value of slot `j` of an integer stack (0 past its end).
pub open spec fn int_at(stack: Seq<i32>, j: int) -> i32 {
    if 0 <= j < stack.len() {
        stack[j]
    } else {
        0
    }
}

/// The value of slot `j` of a string stack (empty past its end).
pub open spec fn string_at(stack: Seq<Seq<char>>, j: int) -> Seq<char> {
    if 0 <= j < stack.len() {
        stack[j]
    } else {
        Seq::empty()
    }
}

/// `stack` with `v` stored in slot `sp` (appended when `sp` is at or past the end).
pub open spec fn store<A>(stack: Seq<A>, sp: int, v: A) -> Seq<A> {
    if sp < stack.len() {
        stack.update(sp, v)
    } else {
        stack.push(v)
    }
}

/// The state after popping an integer.
pub open spec fn pop_int_state(m: StateModel) -> StateModel {
    StateModel { isp: m.isp - 1, ..m }
}

/// The integer that a pop returns.
pub open spec fn top_int(m: StateModel) -> i32 {
    int_at(m.int_stack, m.isp - 1)
}

/// The state after pushing `v`.
pub open spec fn push_int_state(m: StateModel, v: i32) -> StateModel {
    StateModel { int_stack: store(m.int_stack, m.isp, v), isp: m.isp + 1, ..m }
}

/// The state after popping a string.
pub open spec fn pop_string_state(m: StateModel) -> StateModel {
    StateModel { ssp: m.ssp - 1, ..m }
}

/// The string that a pop returns.
pub open spec fn top_string(m: StateModel) -> Seq<char> {
    string_at(m.string_stack, m.ssp - 1)
}

/// The state after pushing `s`.
pub open spec fn push_string_state(m: StateModel, s: Seq<char>) -> StateModel {
    StateModel { string_stack: store(m.string_stack, m.ssp, s), ssp: m.ssp + 1, ..m }
}

/// The bit of pointer `p` in a pointer set.
pub open spec fn pointer_flag(p: ScriptPointer) -> i32 {
    1i32 << (pointer_index(p) as u32)
}

/// The pointer set holding exactly `ps`.
pub open spec fn pointer_set(ps: Seq<ScriptPointer>) -> i32
    decreases ps.len(),
{
    if ps.len() == 0 {
        0
    } else {
        pointer_set(ps.drop_last()) | pointer_flag(ps.last())
    }
}

/// `parts` joined with `", "`.
pub open spec fn join_comma(parts: Seq<Seq<char>>) -> Seq<char>
    decreases parts.len(),
{
    if parts.len() == 0 {
        Seq::empty()
    } else if parts.len() == 1 {
        parts[0]
    } else {
        join_comma(parts.drop_last()) + seq![',', ' '] + parts.last()
    }
}

/// The names of the pointers among the first `n` bits of `flags`, in bit order.
pub open spec fn flag_names(flags: i32, n: int) -> Seq<Seq<char>>
    decreases n,
{
    if n <= 0 {
        Seq::empty()
    } else if flags & (1i32 << ((n - 1) as u32)) != 0 {
        flag_names(flags, n - 1).push(pointer_name(pointer_of((n - 1) as i32)->0))
    } else {
        flag_names(flags, n - 1)
    }
}

/// What `pointer_print` returns: the names of the pointers set in `flags`, comma separated.
pub open spec fn pointer_print_spec(flags: i32) -> Seq<char> {
    join_comma(flag_names(flags, 10))
}

/// Whether `pointers` holds every pointer of `ps`.
pub open spec fn has_all(pointers: i32, ps: Seq<ScriptPointer>) -> bool {
    forall|i: int| 0 <= i < ps.len() ==> (pointers & pointer_flag(#[trigger] ps[i])) == pointer_flag(
        ps[i],
    )
}

/// Whether `i` is the first index of a pointer of `ps` missing from `pointers`.
pub open spec fn first_missing(pointers: i32, ps: Seq<ScriptPointer>, i: int) -> bool {
    &&& 0 <= i < ps.len()
    &&& (pointers & pointer_flag(ps[i])) != pointer_flag(ps[i])
    &&& has_all(pointers, ps.take(i))
}

/// A copy of `s`.
fn copy_string(s: &String) -> (r: String)
    ensures
        r@ == s@,
{
    s.clone()
}

/// A copy of a vector of strings.
fn copy_strings(v: &Vec<String>) -> (r: Vec<String>)
    ensures
        r.deep_view() == v.deep_view(),
{
    let mut r: Vec<String> = Vec::new();
    let mut i: usize = 0;
    while i < v.len()
        invariant
            i <= v@.len(),
            r@.len() == i,
            forall|j: int| 0 <= j < i ==> #[trigger] r@[j]@ == v@[j]@,
        decreases v@.len() - i,
    {
        r.push(v[i].clone());
        i += 1;
    }
    assert(r.deep_view() =~= v.deep_view());
    r
}

/// Shares the script with `Arc::clone`.
/// Claims what the standard library documents: the new handle points to the same script.
#[verifier::external_body]
fn share(script: &Arc<ScriptFile>) -> (r: Arc<ScriptFile>)
    ensures
        r@ == script@,
{
    Arc::clone(script)
}

/// The state `setup_new_script` leaves: the new script at pc -1 with fresh locals whose
/// argument slots take values popped from the stacks.
pub open spec fn setup_state(m: StateModel, s: ScriptModel) -> StateModel {
    let int_args = s.int_arg_count as int;
    let string_args = s.string_arg_count as int;
    StateModel {
        script: s,
        pc: -1i32,
        int_locals: Seq::new(
            s.int_local_count as nat,
            |i: int|
                if i < int_args {
                    int_at(m.int_stack, m.isp - int_args + i)
                } else {
                    0
                },
        ),
        string_locals: Seq::new(
            s.string_local_count as nat,
            |i: int|
                if i < string_args {
                    string_at(m.string_stack, m.ssp - string_args + i)
                } else {
                    Seq::empty()
                },
        ),
        isp: m.isp - int_args,
        ssp: m.ssp - string_args,
        ..m
    }
}

/// Whether `setup_new_script` can run for `s` from `m`.
pub open spec fn setup_ok(m: StateModel, s: ScriptModel) -> bool {
    &&& 0 <= s.int_arg_count <= s.int_local_count
    &&& 0 <= s.string_arg_count <= s.string_local_count
    &&& s.int_arg_count <= m.isp
    &&& s.string_arg_count <= m.ssp
}

impl ScriptState {
    /// A state ready to run `script` from the start, with the numeric arguments as the
    /// first integer locals and the text arguments as the first string locals.
    pub fn new(script: ScriptFile, args: Option<Vec<ScriptArgument>>) -> (s: ScriptState)
        ensures
            s@.script == script@,
            s@.trigger == script@.lookup_key & 0xFF,
            s@.execution == RUNNING,
            s@.execution_history == Seq::<i32>::empty(),
            s@.pc == -1,
            s@.opcount == 0,
            s@.frames == Seq::<FrameModel>::empty(),
            s@.fp == 0,
            s@.debug_frames == Seq::<JumpModel>::empty(),
            s@.debug_fp == 0,
            s@.int_stack == Seq::<i32>::empty(),
            s@.isp == 0,
            s@.string_stack == Seq::<Seq<char>>::empty(),
            s@.ssp == 0,
            args is None ==> s@.int_locals == Seq::<i32>::empty() && s@.string_locals == Seq::<
                Seq<char>,
            >::empty(),
            args matches Some(a) ==> s@.int_locals == numbers_of(a@) && s@.string_locals
                == texts_of(a@),
            s@.pointers == 0,
            s@.self_entity is None,
            s@.active_player is None && s@.active_player2 is None,
            s@.active_npc is None && s@.active_npc2 is None,
            s@.active_loc is None && s@.active_loc2 is None,
            s@.active_obj is None && s@.active_obj2 is None,
            s@.split_pages == Seq::<Seq<Seq<char>>>::empty(),
            s@.split_mesanim == -1,
    {
        let mut int_locals: Vec<i32> = Vec::new();
        let mut string_locals: Vec<String> = Vec::new();
        if let Some(arg_list) = args {
            let ghost all = arg_list@;
            let mut i: usize = 0;
            while i < arg_list.len()
                invariant
                    i <= all.len(),
                    arg_list@ == all,
                    int_locals@ == numbers_of(all.take(i as int)),
                    string_locals.deep_view() == texts_of(all.take(i as int)),
                decreases all.len() - i,
            {
                assert(all.take(i + 1).drop_last() =~= all.take(i as int));
                match &arg_list[i] {
                    ScriptArgument::Number(num) => int_locals.push(*num),
                    ScriptArgument::String(string) => {
                        string_locals.push(copy_string(string));
                        assert(string_locals.deep_view() =~= texts_of(all.take(i as int)).push(
                            string@,
                        ));
                    },
                }
                i += 1;
            }
            assert(all.take(all.len() as int) =~= all);
        } else {
            assert(string_locals.deep_view() =~= Seq::<Seq<char>>::empty());
        }
        let lookup_key = script.info.lookup_key;
        let s = ScriptState {
            script: Arc::new(script),
            trigger: lookup_key & 0xFF,
            execution: RUNNING,
            execution_history: Vec::new(),
            pc: -1,
            opcount: 0,
            frames: Vec::new(),
            fp: 0,
            debug_frames: Vec::new(),
            debug_fp: 0,
            int_stack: Vec::new(),
            isp: 0,
            string_stack: Vec::new(),
            ssp: 0,
            int_locals,
            string_locals,
            pointers: 0,
            self_entity: None,
            active_player: None,
            active_player2: None,
            active_npc: None,
            active_npc2: None,
            active_loc: None,
            active_loc2: None,
            active_obj: None,
            active_obj2: None,
            split_pages: Vec::new(),
            split_mesanim: -1,
        };
        assert(s@.frames =~= Seq::<FrameModel>::empty());
        assert(s@.debug_frames =~= Seq::<JumpModel>::empty());
        assert(s@.string_stack =~= Seq::<Seq<char>>::empty());
        assert(s@.split_pages =~= Seq::<Seq<Seq<char>>>::empty());
        s
    }

    /// Replaces the pointer set with exactly `pointers`.
    pub fn pointers_set(&mut self, pointers: &[ScriptPointer])
        ensures
            final(self)@ == (StateModel { pointers: pointer_set(pointers@), ..old(self)@ }),
    {
        let mut acc: i32 = 0;
        let mut i: usize = 0;
        while i < pointers.len()
            invariant
                i <= pointers@.len(),
                acc == pointer_set(pointers@.take(i as int)),
            decreases pointers@.len() - i,
        {
            assert(pointers@.take(i + 1).drop_last() =~= pointers@.take(i as int));
            acc = acc | (1i32 << (pointers[i].index() as u32));
            i += 1;
        }
        assert(pointers@.take(pointers@.len() as int) =~= pointers@);
        self.pointers = acc;
    }

    /// Adds `pointer` to the pointer set.
    pub fn pointer_add(&mut self, pointer: ScriptPointer)
        ensures
            final(self)@ == (StateModel {
                pointers: old(self)@.pointers | pointer_flag(pointer),
                ..old(self)@
            }),
    {
        self.pointers = self.pointers | (1i32 << (pointer.index() as u32));
    }

    /// Takes `pointer` out of the pointer set.
    pub fn pointer_remove(&mut self, pointer: ScriptPointer)
        ensures
            final(self)@ == (StateModel {
                pointers: old(self)@.pointers & !pointer_flag(pointer),
                ..old(self)@
            }),
    {
        self.pointers = self.pointers & !(1i32 << (pointer.index() as u32));
    }

    /// Whether `pointer` is in the pointer set.
    pub fn pointer_get(&self, pointer: ScriptPointer) -> (b: bool)
        ensures
            b == ((self.pointers & pointer_flag(pointer)) != 0),
    {
        (self.pointers & (1i32 << (pointer.index() as u32))) != 0
    }

    /// The names of the pointers set in `flags`, comma separated.
    pub fn pointer_print(flags: i32) -> (s: String)
        ensures
            s@ == pointer_print_spec(flags),
    {
        let mut s = String::new();
        let mut first = true;
        let mut i: i32 = 0;
        while i < 10
            invariant
                0 <= i <= 10,
                s@ == join_comma(flag_names(flags, i as int)),
                first == (flag_names(flags, i as int).len() == 0),
            decreases 10 - i,
        {
            if flags & (1i32 << (i as u32)) != 0 {
                let p = ScriptPointer::try_from(i);
                assert(p is Some) by {
                    assert(0 <= i <= 9);
                }
                let name = p.unwrap().name();
                let ghost before = flag_names(flags, i as int);
                assert(flag_names(flags, i + 1) == before.push(name@));
                if !first {
                    s.append(", ");
                    proof {
                        reveal_strlit(", ");
                    }
                    assert(before.push(name@).drop_last() =~= before);
                } else {
                    assert(before.push(name@) =~= seq![name@]);
                }
                s.append(name.as_str());
                first = false;
            } else {
                assert(flag_names(flags, i + 1) == flag_names(flags, i as int));
            }
            i += 1;
        }
        s
    }

    /// `Ok` when every pointer of `pointers` is set; otherwise an error naming the first
    /// missing one and the pointers that are set.
    pub fn pointer_check(&self, pointers: &[ScriptPointer]) -> (r: Result<(), String>)
        ensures
            r is Ok <==> has_all(self.pointers, pointers@),
            r matches Err(msg) ==> exists|i: int|
                first_missing(self.pointers, pointers@, i) && msg@ == "Required pointer: "@
                    + pointer_print_spec(pointer_flag(pointers@[i])) + ", current: "@
                    + pointer_print_spec(self.pointers),
    {
        let mut i: usize = 0;
        while i < pointers.len()
            invariant
                i <= pointers@.len(),
                has_all(self.pointers, pointers@.take(i as int)),
            decreases pointers@.len() - i,
        {
            let flag = 1i32 << (pointers[i].index() as u32);
            if (self.pointers & flag) != flag {
                let mut msg = String::new();
                msg.append("Required pointer: ");
                let required = Self::pointer_print(flag);
                msg.append(required.as_str());
                msg.append(", current: ");
                let current = Self::pointer_print(self.pointers);
                msg.append(current.as_str());
                assert(first_missing(self.pointers, pointers@, i as int));
                return Err(msg);
            }
            assert forall|j: int| 0 <= j < i + 1 implies (self.pointers & pointer_flag(
                #[trigger] pointers@.take(i + 1)[j],
            )) == pointer_flag(pointers@.take(i + 1)[j]) by {
                if j < i {
                    assert(pointers@.take(i + 1)[j] == pointers@.take(i as int)[j]);
                }
            }
            i += 1;
        }
        assert(pointers@.take(pointers@.len() as int) =~= pointers@);
        Ok(())
    }

    /// The operand of the current instruction.
    pub fn get_int_operand(&self) -> (v: i32)
        requires
            0 <= self@.pc < self@.script.int_operands.len(),
        ensures
            v == self@.script.int_operands[self@.pc as int],
    {
        self.script.int_operands[self.pc as usize]
    }

    /// The string operand of the current instruction.
    pub fn get_string_operand(&self) -> (s: &str)
        requires
            0 <= self@.pc < self@.script.string_operands.len(),
        ensures
            s@ == self@.script.string_operands[self@.pc as int],
    {
        self.script.string_operands[self.pc as usize].as_str()
    }

    /// The active player picked by the current operand (0 for the first, otherwise the
    /// second), or an error when that slot is empty.
    pub fn get_active_player(&self) -> (r: Result<u32, String>)
        requires
            0 <= self@.pc < self@.script.int_operands.len(),
        ensures
            ({
                let slot = if self@.script.int_operands[self@.pc as int] == 0 {
                    self@.active_player
                } else {
                    self@.active_player2
                };
                &&& slot matches Some(p) ==> r == Ok::<u32, String>(p)
                &&& slot is None ==> (r matches Err(msg) && msg@ == "Player not found"@)
            }),
    {
        let slot = if self.get_int_operand() == 0 {
            self.active_player
        } else {
            self.active_player2
        };
        match slot {
            Some(player) => Ok(player),
            None => Err(String::from_str("Player not found")),
        }
    }

    /// Stores `player` in the active-player slot picked by the current operand.
    pub fn set_active_player(&mut self, player: u32)
        requires
            0 <= old(self)@.pc < old(self)@.script.int_operands.len(),
        ensures
            old(self)@.script.int_operands[old(self)@.pc as int] == 0 ==> final(self)@ == (
            StateModel { active_player: Some(player), ..old(self)@ }),
            old(self)@.script.int_operands[old(self)@.pc as int] != 0 ==> final(self)@ == (
            StateModel { active_player2: Some(player), ..old(self)@ }),
    {
        if self.get_int_operand() == 0 {
            self.active_player = Some(player);
        } else {
            self.active_player2 = Some(player);
        }
    }

    /// Pops an integer (0 when the slot was never written).
    pub fn pop_int(&mut self) -> (v: i32)
        requires
            old(self)@.isp > 0,
        ensures
            v == top_int(old(self)@),
            final(self)@ == pop_int_state(old(self)@),
    {
        self.isp -= 1;
        if self.isp < self.int_stack.len() {
            self.int_stack[self.isp]
        } else {
            0
        }
    }

    /// Pops `amount` integers, the top of the stack first.
    pub fn pop_ints(&mut self, amount: usize) -> (v: Vec<i32>)
        requires
            old(self)@.isp >= amount,
        ensures
            v@.len() == amount,
            forall|k: int| 0 <= k < amount ==> #[trigger] v@[k] == int_at(old(self)@.int_stack, old(self)@.isp - 1 - k),
            final(self)@ == (StateModel { isp: old(self)@.isp - amount, ..old(self)@ }),
    {
        let mut v: Vec<i32> = Vec::new();
        let mut k: usize = 0;
        while k < amount
            invariant
                k <= amount,
                old(self)@.isp >= amount,
                v@.len() == k,
                forall|j: int| 0 <= j < k ==> #[trigger] v@[j] == int_at(old(self)@.int_stack, old(self)@.isp - 1 - j),
                self@ == (StateModel { isp: old(self)@.isp - k, ..old(self)@ }),
            decreases amount - k,
        {
            let x = self.pop_int();
            v.push(x);
            k += 1;
        }
        v
    }

    /// Pushes an integer, overwriting a stale slot or growing the stack.
    pub fn push_int(&mut self, value: i32)
        requires
            old(self)@.isp < usize::MAX,
        ensures
            final(self)@ == push_int_state(old(self)@, value),
    {
        if self.isp < self.int_stack.len() {
            self.int_stack.set(self.isp, value);
        } else {
            self.int_stack.push(value);
        }
        self.isp += 1;
    }

    /// Pops a string (empty when the slot was never written).
    pub fn pop_string(&mut self) -> (s: String)
        requires
            old(self)@.ssp > 0,
        ensures
            s@ == top_string(old(self)@),
            final(self)@ == pop_string_state(old(self)@),
    {
        self.ssp -= 1;
        if self.ssp < self.string_stack.len() {
            copy_string(&self.string_stack[self.ssp])
        } else {
            String::new()
        }
    }

    /// Pops `amount` strings, the top of the stack first.
    pub fn pop_strings(&mut self, amount: usize) -> (v: Vec<String>)
        requires
            old(self)@.ssp >= amount,
        ensures
            v@.len() == amount,
            forall|k: int| 0 <= k < amount ==> #[trigger] v@[k]@ == string_at(old(self)@.string_stack, old(self)@.ssp - 1 - k),
            final(self)@ == (StateModel { ssp: old(self)@.ssp - amount, ..old(self)@ }),
    {
        let mut v: Vec<String> = Vec::new();
        let mut k: usize = 0;
        while k < amount
            invariant
                k <= amount,
                old(self)@.ssp >= amount,
                v@.len() == k,
                forall|j: int| 0 <= j < k ==> #[trigger] v@[j]@ == string_at(old(self)@.string_stack, old(self)@.ssp - 1 - j),
                self@ == (StateModel { ssp: old(self)@.ssp - k, ..old(self)@ }),
            decreases amount - k,
        {
            let x = self.pop_string();
            v.push(x);
            k += 1;
        }
        v
    }

    /// Pushes a string, overwriting a stale slot or growing the stack.
    pub fn push_string(&mut self, string: String)
        requires
            old(self)@.ssp < usize::MAX,
        ensures
            final(self)@ == push_string_state(old(self)@, string@),
    {
        if self.ssp < self.string_stack.len() {
            self.string_stack.set(self.ssp, string);
        } else {
            self.string_stack.push(string);
        }
        self.ssp += 1;
        assert(self@.string_stack =~= store(old(self)@.string_stack, old(self)@.ssp, string@));
    }

    /// Switches to `script` at pc -1 with fresh locals, moving its arguments from the
    /// stacks into the first locals.
    pub fn setup_new_script(&mut self, script: ScriptFile)
        requires
            setup_ok(old(self)@, script@),
        ensures
            final(self)@ == setup_state(old(self)@, script@),
    {
        let ghost m = self@;
        let ghost sm = script@;
        let int_local_count = script.int_local_count as usize;
        let string_local_count = script.string_local_count as usize;
        let int_arg_count = script.int_arg_count as usize;
        let string_arg_count = script.string_arg_count as usize;
        let arc_script = Arc::new(script);
        let mut int_locals: Vec<i32> = Vec::new();
        let mut k: usize = 0;
        while k < int_local_count
            invariant
                k <= int_local_count,
                int_locals@ == Seq::new(k as nat, |i: int| 0i32),
            decreases int_local_count - k,
        {
            int_locals.push(0);
            k += 1;
            assert(int_locals@ =~= Seq::new(k as nat, |i: int| 0i32));
        }
        let mut string_locals: Vec<String> = Vec::new();
        k = 0;
        while k < string_local_count
            invariant
                k <= string_local_count,
                string_locals@.len() == k,
                forall|j: int| 0 <= j < k ==> (#[trigger] string_locals@[j])@ == Seq::<char>::empty(),
            decreases string_local_count - k,
        {
            string_locals.push(String::new());
            k += 1;
        }
        let mut i = int_arg_count;
        while i > 0
            invariant
                i <= int_arg_count <= int_local_count,
                int_arg_count <= m.isp,
                self@ == (StateModel { isp: m.isp - (int_arg_count - i), ..m }),
                int_locals@.len() == int_local_count,
                forall|j: int|
                    0 <= j < int_local_count ==> #[trigger] int_locals@[j] == if i <= j
                        < int_arg_count {
                        int_at(m.int_stack, m.isp - int_arg_count + j)
                    } else {
                        0
                    },
            decreases i,
        {
            i -= 1;
            let v = self.pop_int();
            int_locals.set(i, v);
        }
        let mut i = string_arg_count;
        while i > 0
            invariant
                i <= string_arg_count <= string_local_count,
                string_arg_count <= m.ssp,
                self@ == (StateModel { isp: m.isp - int_arg_count, ssp: m.ssp - (string_arg_count - i), ..m }),
                string_locals@.len() == string_local_count,
                forall|j: int|
                    0 <= j < string_local_count ==> #[trigger] string_locals@[j]@ == if i <= j
                        < string_arg_count {
                        string_at(m.string_stack, m.ssp - string_arg_count + j)
                    } else {
                        Seq::<char>::empty()
                    },
            decreases i,
        {
            i -= 1;
            let v = self.pop_string();
            string_locals.set(i, v);
        }
        self.pc = -1;
        self.script = arc_script;
        self.int_locals = int_locals;
        self.string_locals = string_locals;
        assert(self@.int_locals =~= setup_state(m, sm).int_locals);
        assert(self@.string_locals =~= setup_state(m, sm).string_locals);
        assert(self@ =~= setup_state(m, sm));
    }

    /// Returns to the caller saved in the top gosub frame.
    pub fn pop_frame(&mut self)
        requires
            1 <= old(self)@.fp <= old(self)@.frames.len(),
        ensures
            final(self)@ == pop_frame_state(old(self)@),
    {
        self.fp -= 1;
        let frame = &self.frames[self.fp];
        let pc = frame.pc;
        let script = share(&frame.script);
        let int_locals = frame.int_locals.clone();
        let string_locals = copy_strings(&frame.string_locals);
        self.pc = pc;
        self.script = script;
        self.int_locals = int_locals;
        self.string_locals = string_locals;
        assert(self@ =~= pop_frame_state(old(self)@));
    }

    /// Saves the current script, position and locals in a gosub frame and switches to `proc`.
    pub fn gosub_frame(&mut self, proc: ScriptFile)
        requires
            old(self)@.fp <= old(self)@.frames.len(),
            old(self)@.fp < usize::MAX,
            setup_ok(save_frame_state(old(self)@), proc@),
        ensures
            final(self)@ == setup_state(save_frame_state(old(self)@), proc@),
    {
        let frame = GosubStackFrame {
            script: share(&self.script),
            pc: self.pc,
            int_locals: self.int_locals.clone(),
            string_locals: copy_strings(&self.string_locals),
        };
        if self.fp >= self.frames.len() {
            self.frames.push(frame);
        } else {
            self.frames.set(self.fp, frame);
        }
        self.fp += 1;
        assert(self@.frames =~= save_frame_state(old(self)@).frames);
        assert(self@ =~= save_frame_state(old(self)@));
        self.setup_new_script(proc);
    }

    /// Records the current script and position in the debug frames, drops every gosub
    /// frame and switches to `label`.
    pub fn goto_frame(&mut self, label: ScriptFile)
        requires
            old(self)@.debug_fp <= old(self)@.debug_frames.len(),
            old(self)@.debug_fp < usize::MAX,
            setup_ok(jump_state(old(self)@), label@),
        ensures
            final(self)@ == setup_state(jump_state(old(self)@), label@),
    {
        let frame = JumpStackFrame { script: share(&self.script), pc: self.pc };
        if self.debug_fp >= self.debug_frames.len() {
            self.debug_frames.push(frame);
        } else {
            self.debug_frames.set(self.debug_fp, frame);
        }
        self.debug_fp += 1;
        self.fp = 0;
        self.frames.clear();
        assert(self@.debug_frames =~= jump_state(old(self)@).debug_frames);
        assert(self@.frames =~= Seq::<FrameModel>::empty());
        assert(self@ =~= jump_state(old(self)@));
        self.setup_new_script(label);
    }

    /// Clears the stacks, frames, locals and pointers and rewinds to pc -1.
    pub fn reset(&mut self)
        ensures
            final(self)@ == (StateModel {
                pc: -1i32,
                frames: Seq::empty(),
                fp: 0,
                int_stack: Seq::empty(),
                isp: 0,
                string_stack: Seq::empty(),
                ssp: 0,
                int_locals: Seq::empty(),
                string_locals: Seq::empty(),
                pointers: 0,
                ..old(self)@
            }),
    {
        self.pc = -1;
        self.frames.clear();
        self.fp = 0;
        self.int_stack.clear();
        self.isp = 0;
        self.string_stack.clear();
        self.ssp = 0;
        self.int_locals.clear();
        self.string_locals.clear();
        self.pointers = 0;
        assert(self@.frames =~= Seq::<FrameModel>::empty());
        assert(self@.string_stack =~= Seq::<Seq<char>>::empty());
        assert(self@.string_locals =~= Seq::<Seq<char>>::empty());
    }
}

/// The state after returning to the top gosub frame.
pub open spec fn pop_frame_state(m: StateModel) -> StateModel {
    let f = m.frames[m.fp - 1];
    StateModel {
        fp: m.fp - 1,
        pc: f.pc,
        script: f.script,
        int_locals: f.int_locals,
        string_locals: f.string_locals,
        ..m
    }
}

/// The state after saving the caller in a gosub frame (before the callee is set up).
pub open spec fn save_frame_state(m: StateModel) -> StateModel {
    StateModel {
        frames: store(
            m.frames,
            m.fp,
            FrameModel {
                script: m.script,
                pc: m.pc,
                int_locals: m.int_locals,
                string_locals: m.string_locals,
            },
        ),
        fp: m.fp + 1,
        ..m
    }
}

/// The state after recording a jump (before the target is set up).
pub open spec fn jump_state(m: StateModel) -> StateModel {
    StateModel {
        debug_frames: store(m.debug_frames, m.debug_fp, JumpModel { script: m.script, pc: m.pc }),
        debug_fp: m.debug_fp + 1,
        fp: 0,
        frames: Seq::empty(),
        ..m
    }
}

/// The numeric arguments, in order.
pub open spec fn numbers_of(args: Seq<ScriptArgument>) -> Seq<i32>
    decreases args.len(),
{
    if args.len() == 0 {
        Seq::empty()
    } else {
        match args.last() {
            ScriptArgument::Number(n) => numbers_of(args.drop_last()).push(n),
            ScriptArgument::String(_) => numbers_of(args.drop_last()),
        }
    }
}

/// The text arguments, in order.
pub open spec fn texts_of(args: Seq<ScriptArgument>) -> Seq<Seq<char>>
    decreases args.len(),
{
    if args.len() == 0 {
        Seq::empty()
    } else {
        match args.last() {
            ScriptArgument::Number(_) => texts_of(args.drop_last()),
            ScriptArgument::String(s) => texts_of(args.drop_last()).push(s@),
        }
    }
}

} // verus!
