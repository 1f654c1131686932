use vstd::prelude::*;
use crate::script_state::{has_all, ScriptState, StateModel, ABORTED};

verus! {

/// The entity slots a script may hold; each is one bit of a state's pointer set.
#[derive(Clone, Copy, PartialEq, Eq, Structural, Debug)]
pub enum ScriptPointer {
    ActivePlayer,
    ActivePlayer2,
    ProtectedActivePlayer,
    ProtectedActivePlayer2,
    ActiveNpc,
    ActiveNpc2,
    ActiveLoc,
    ActiveLoc2,
    ActiveObj,
    ActiveObj2,
    _LAST,
}

/// The bit number of a pointer.
pub open spec fn pointer_index(p: ScriptPointer) -> i32 {
    match p {
        ScriptPointer::ActivePlayer => 0,
        ScriptPointer::ActivePlayer2 => 1,
        ScriptPointer::ProtectedActivePlayer => 2,
        ScriptPointer::ProtectedActivePlayer2 => 3,
        ScriptPointer::ActiveNpc => 4,
        ScriptPointer::ActiveNpc2 => 5,
        ScriptPointer::ActiveLoc => 6,
        ScriptPointer::ActiveLoc2 => 7,
        ScriptPointer::ActiveObj => 8,
        ScriptPointer::ActiveObj2 => 9,
        ScriptPointer::_LAST => 10,
    }
}

/// The pointer with bit number `i`, if there is one.
pub open spec fn pointer_of(i: i32) -> Option<ScriptPointer> {
    if i == 0 {
        Some(ScriptPointer::ActivePlayer)
    } else if i == 1 {
        Some(ScriptPointer::ActivePlayer2)
    } else if i == 2 {
        Some(ScriptPointer::ProtectedActivePlayer)
    } else if i == 3 {
        Some(ScriptPointer::ProtectedActivePlayer2)
    } else if i == 4 {
        Some(ScriptPointer::ActiveNpc)
    } else if i == 5 {
        Some(ScriptPointer::ActiveNpc2)
    } else if i == 6 {
        Some(ScriptPointer::ActiveLoc)
    } else if i == 7 {
        Some(ScriptPointer::ActiveLoc2)
    } else if i == 8 {
        Some(ScriptPointer::ActiveObj)
    } else if i == 9 {
        Some(ScriptPointer::ActiveObj2)
    } else if i == 10 {
        Some(ScriptPointer::_LAST)
    } else {
        None
    }
}

/// The name of a pointer as it is printed.
pub open spec fn pointer_name(p: ScriptPointer) -> Seq<char> {
    match p {
        ScriptPointer::ActivePlayer => seq!['A', 'c', 't', 'i', 'v', 'e', 'P', 'l', 'a', 'y', 'e', 'r'],
        ScriptPointer::ActivePlayer2 => seq![
            'A',
            'c',
            't',
            'i',
            'v',
            'e',
            'P',
            'l',
            'a',
            'y',
            'e',
            'r',
            '2',
        ],
        ScriptPointer::ProtectedActivePlayer => seq![
            'P',
            'r',
            'o',
            't',
            'e',
            'c',
            't',
            'e',
            'd',
            'A',
            'c',
            't',
            'i',
            'v',
            'e',
            'P',
            'l',
            'a',
            'y',
            'e',
            'r',
        ],
        ScriptPointer::ProtectedActivePlayer2 => seq![
            'P',
            'r',
            'o',
            't',
            'e',
            'c',
            't',
            'e',
            'd',
            'A',
            'c',
            't',
            'i',
            'v',
            'e',
            'P',
            'l',
            'a',
            'y',
            'e',
            'r',
            '2',
        ],
        ScriptPointer::ActiveNpc => seq!['A', 'c', 't', 'i', 'v', 'e', 'N', 'p', 'c'],
        ScriptPointer::ActiveNpc2 => seq!['A', 'c', 't', 'i', 'v', 'e', 'N', 'p', 'c', '2'],
        ScriptPointer::ActiveLoc => seq!['A', 'c', 't', 'i', 'v', 'e', 'L', 'o', 'c'],
        ScriptPointer::ActiveLoc2 => seq!['A', 'c', 't', 'i', 'v', 'e', 'L', 'o', 'c', '2'],
        ScriptPointer::ActiveObj => seq!['A', 'c', 't', 'i', 'v', 'e', 'O', 'b', 'j'],
        ScriptPointer::ActiveObj2 => seq!['A', 'c', 't', 'i', 'v', 'e', 'O', 'b', 'j', '2'],
        ScriptPointer::_LAST => seq!['_', 'L', 'A', 'S', 'T'],
    }
}

impl ScriptPointer {
    /// The bit number of this pointer.
    pub fn index(self) -> (i: i32)
        ensures
            i == pointer_index(self),
    {
        match self {
            ScriptPointer::ActivePlayer => 0,
            ScriptPointer::ActivePlayer2 => 1,
            ScriptPointer::ProtectedActivePlayer => 2,
            ScriptPointer::ProtectedActivePlayer2 => 3,
            ScriptPointer::ActiveNpc => 4,
            ScriptPointer::ActiveNpc2 => 5,
            ScriptPointer::ActiveLoc => 6,
            ScriptPointer::ActiveLoc2 => 7,
            ScriptPointer::ActiveObj => 8,
            ScriptPointer::ActiveObj2 => 9,
            ScriptPointer::_LAST => 10,
        }
    }

    /// The pointer with bit number `i`, if there is one.
    pub fn try_from(i: i32) -> (p: Option<ScriptPointer>)
        ensures
            p == pointer_of(i),
    {
        if i == 0 {
            Some(ScriptPointer::ActivePlayer)
        } else if i == 1 {
            Some(ScriptPointer::ActivePlayer2)
        } else if i == 2 {
            Some(ScriptPointer::ProtectedActivePlayer)
        } else if i == 3 {
            Some(ScriptPointer::ProtectedActivePlayer2)
        } else if i == 4 {
            Some(ScriptPointer::ActiveNpc)
        } else if i == 5 {
            Some(ScriptPointer::ActiveNpc2)
        } else if i == 6 {
            Some(ScriptPointer::ActiveLoc)
        } else if i == 7 {
            Some(ScriptPointer::ActiveLoc2)
        } else if i == 8 {
            Some(ScriptPointer::ActiveObj)
        } else if i == 9 {
            Some(ScriptPointer::ActiveObj2)
        } else if i == 10 {
            Some(ScriptPointer::_LAST)
        } else {
            None
        }
    }

    /// The printed name of this pointer.
    pub fn name(self) -> (s: String)
        ensures
            s@ == pointer_name(self),
    {
        let mut s = String::new();
        match self {
            ScriptPointer::ActivePlayer => crate::text::push_str_chars(
                &mut s,
                &['A', 'c', 't', 'i', 'v', 'e', 'P', 'l', 'a', 'y', 'e', 'r'],
            ),
            ScriptPointer::ActivePlayer2 => crate::text::push_str_chars(
                &mut s,
                &['A', 'c', 't', 'i', 'v', 'e', 'P', 'l', 'a', 'y', 'e', 'r', '2'],
            ),
            ScriptPointer::ProtectedActivePlayer => crate::text::push_str_chars(
                &mut s,
                &[
                    'P',
                    'r',
                    'o',
                    't',
                    'e',
                    'c',
                    't',
                    'e',
                    'd',
                    'A',
                    'c',
                    't',
                    'i',
                    'v',
                    'e',
                    'P',
                    'l',
                    'a',
                    'y',
                    'e',
                    'r',
                ],
            ),
            ScriptPointer::ProtectedActivePlayer2 => crate::text::push_str_chars(
                &mut s,
                &[
                    'P',
                    'r',
                    'o',
                    't',
                    'e',
                    'c',
                    't',
                    'e',
                    'd',
                    'A',
                    'c',
                    't',
                    'i',
                    'v',
                    'e',
                    'P',
                    'l',
                    'a',
                    'y',
                    'e',
                    'r',
                    '2',
                ],
            ),
            ScriptPointer::ActiveNpc => crate::text::push_str_chars(
                &mut s,
                &['A', 'c', 't', 'i', 'v', 'e', 'N', 'p', 'c'],
            ),
            ScriptPointer::ActiveNpc2 => crate::text::push_str_chars(
                &mut s,
                &['A', 'c', 't', 'i', 'v', 'e', 'N', 'p', 'c', '2'],
            ),
            ScriptPointer::ActiveLoc => crate::text::push_str_chars(
                &mut s,
                &['A', 'c', 't', 'i', 'v', 'e', 'L', 'o', 'c'],
            ),
            ScriptPointer::ActiveLoc2 => crate::text::push_str_chars(
                &mut s,
                &['A', 'c', 't', 'i', 'v', 'e', 'L', 'o', 'c', '2'],
            ),
            ScriptPointer::ActiveObj => crate::text::push_str_chars(
                &mut s,
                &['A', 'c', 't', 'i', 'v', 'e', 'O', 'b', 'j'],
            ),
            ScriptPointer::ActiveObj2 => crate::text::push_str_chars(
                &mut s,
                &['A', 'c', 't', 'i', 'v', 'e', 'O', 'b', 'j', '2'],
            ),
            ScriptPointer::_LAST => crate::text::push_str_chars(&mut s, &['_', 'L', 'A', 'S', 'T']),
        }
        assert(s@ =~= pointer_name(self));
        s
    }
}

/// Either one pointer to check, or a pair of which the instruction's operand picks one.
#[derive(Clone, Copy)]
pub enum PointerCheck {
    Single(ScriptPointer),
    Multiple([ScriptPointer; 2]),
}

impl PointerCheck {
    /// A check of one pointer.
    pub fn from_pointer(pointer: ScriptPointer) -> (c: PointerCheck)
        ensures
            c == PointerCheck::Single(pointer),
    {
        PointerCheck::Single(pointer)
    }

    /// A check of one of two pointers, picked by the instruction's operand.
    pub fn from_pair(pointers: [ScriptPointer; 2]) -> (c: PointerCheck)
        ensures
            c == PointerCheck::Multiple(pointers),
    {
        PointerCheck::Multiple(pointers)
    }
}

/// Whether the pointer check `check` passes on `m`: the single pointer is set, or the
/// operand picks one of the pair and that one is set.
pub open spec fn check_passes(m: StateModel, check: PointerCheck) -> bool {
    match check {
        PointerCheck::Single(p) => has_all(m.pointers, seq![p]),
        PointerCheck::Multiple(ps) => {
            let idx = m.script.int_operands[m.pc as int] as usize;
            idx < 2 && has_all(m.pointers, seq![ps@[idx as int]])
        },
    }
}

/// Runs the pointer check that guards a handler: returns whether the handler may run, and
/// aborts the script when it may not.
pub fn checked_handler(check: PointerCheck, state: &mut ScriptState) -> (passed: bool)
    requires
        check is Multiple ==> 0 <= old(state)@.pc < old(state)@.script.int_operands.len(),
    ensures
        passed == check_passes(old(state)@, check),
        passed ==> final(state)@ == old(state)@,
        !passed ==> final(state)@ == (StateModel { execution: ABORTED, ..old(state)@ }),
{
    let passed = match check {
        PointerCheck::Single(ptr) => {
            let one = [ptr];
            assert(one@ =~= seq![ptr]);
            state.pointer_check(&one).is_ok()
        },
        PointerCheck::Multiple(ptrs) => {
            let idx = state.get_int_operand() as usize;
            if idx >= 2 {
                false
            } else {
                let one = [ptrs[idx]];
                assert(one@ =~= seq![ptrs@[idx as int]]);
                state.pointer_check(&one).is_ok()
            }
        },
    };
    if !passed {
        state.execution = ABORTED;
    }
    passed
}

} // verus!
