use vstd::prelude::*;
use rand::Rng;
use crate::bits::{bitcount, clear_bit_range, mask_value, popcount, set_bit_range};
use crate::script_opcode::{
    ABS, ADD, ADDPERCENT, AND, ATAN2_DEG, BITCOUNT, CLEARBIT, COS_DEG, DIVIDE, GETBIT_RANGE,
    INTERPOLATE, INVPOW, MAX, MIN, MODULO, MULTIPLY, OR, POW, RANDOM, RANDOMINC, SCALE, SETBIT,
    SETBIT_RANGE, SETBIT_RANGE_TOINT, SIN_DEG, SUB, TESTBIT, TOGGLEBIT,
};
use crate::script_ops::fits_i32;
use crate::script_state::{int_at, push_int_state, ScriptState, StateModel};

verus! {

/// Rust's `/` on `i32`: the quotient rounded toward zero.
pub open spec fn tdiv(a: i32, b: i32) -> i32 {
    if a >= 0 {
        (a / b) as i32
    } else {
        (-((-a) / (b as int))) as i32
    }
}

/// Rust's `%` on `i32`: the remainder with the sign of `a`.
pub open spec fn tmod(a: i32, b: i32) -> i32 {
    if a >= 0 {
        (a % b) as i32
    } else {
        (-((-a) % (b as int))) as i32
    }
}

/// Whether `/` and `%` are defined on `a` and `b` (no division by zero, no overflow).
pub open spec fn div_ok(a: i32, b: i32) -> bool {
    b != 0 && !(a == i32::MIN && b == -1)
}

/// The integer `k` places below the top of the stack (0 is the top).
pub open spec fn nth(m: StateModel, k: int) -> i32 {
    int_at(m.int_stack, m.isp - 1 - k)
}

/// Whether `op` has a math handler.
pub open spec fn is_math_op(op: i32) -> bool {
    ||| op == ADD as i32
    ||| op == SUB as i32
    ||| op == MULTIPLY as i32
    ||| op == DIVIDE as i32
    ||| op == RANDOM as i32
    ||| op == RANDOMINC as i32
    ||| op == INTERPOLATE as i32
    ||| op == ADDPERCENT as i32
    ||| op == SETBIT as i32
    ||| op == CLEARBIT as i32
    ||| op == TESTBIT as i32
    ||| op == MODULO as i32
    ||| op == POW as i32
    ||| op == INVPOW as i32
    ||| op == AND as i32
    ||| op == OR as i32
    ||| op == MIN as i32
    ||| op == MAX as i32
    ||| op == SCALE as i32
    ||| op == BITCOUNT as i32
    ||| op == TOGGLEBIT as i32
    ||| op == SETBIT_RANGE as i32
    ||| op == GETBIT_RANGE as i32
    ||| op == SETBIT_RANGE_TOINT as i32
    ||| op == SIN_DEG as i32
    ||| op == COS_DEG as i32
    ||| op == ATAN2_DEG as i32
    ||| op == ABS as i32
}

/// Whether `op` is a math instruction computed on integers (all but the two powers, which
/// work in floating point).
pub open spec fn is_integer_math_op(op: i32) -> bool {
    is_math_op(op) && op != POW as i32 && op != INVPOW as i32
}

/// The trigonometric instructions, which have no effect yet.
pub open spec fn is_inert_math_op(op: i32) -> bool {
    op == SIN_DEG as i32 || op == COS_DEG as i32 || op == ATAN2_DEG as i32
}

/// How many integers the handler of `op` pops.
pub open spec fn arity(op: i32) -> int {
    if op == RANDOM as i32 || op == RANDOMINC as i32 || op == BITCOUNT as i32 || op == ABS as i32 {
        1
    } else if op == INTERPOLATE as i32 {
        5
    } else if op == CLEARBIT as i32 || op == SCALE as i32 || op == SETBIT_RANGE as i32 || op
        == GETBIT_RANGE as i32 {
        3
    } else if op == SETBIT_RANGE_TOINT as i32 {
        4
    } else if is_inert_math_op(op) {
        0
    } else {
        2
    }
}

/// The slope `INTERPOLATE` computes from `y0`, `y1`, `x0`, `x1`.
pub open spec fn slope(y0: i32, y1: i32, x0: i32, x1: i32) -> i32 {
    tdiv((y1 - y0) as i32, tdiv(x1, x0))
}

/// Whether a bit range from `start` to `end` (inclusive) can be built.
pub open spec fn range_ok(start: i32, end: i32) -> bool {
    0 <= start < 32 && 0 <= end - start + 1 <= 32
}

/// Whether the handler of `op` can run on `m` without overflow, division by zero or an
/// out-of-range shift.
pub open spec fn math_ok(m: StateModel, op: i32) -> bool {
    let a0 = nth(m, 0);
    let a1 = nth(m, 1);
    let a2 = nth(m, 2);
    let a3 = nth(m, 3);
    let a4 = nth(m, 4);
    &&& m.isp >= arity(op)
    &&& m.isp - arity(op) < usize::MAX
    &&& if op == ADD as i32 {
        fits_i32(a1 + a0)
    } else if op == SUB as i32 {
        fits_i32(a1 - a0)
    } else if op == MULTIPLY as i32 {
        fits_i32(a1 * a0)
    } else if op == DIVIDE as i32 {
        div_ok(a1, a0)
    } else if op == INTERPOLATE as i32 {
        // x = a0, x1 = a1, x0 = a2, y1 = a3, y0 = a4
        a1 != a2 ==> {
            &&& div_ok(a1, a2)
            &&& fits_i32(a3 - a4)
            &&& div_ok((a3 - a4) as i32, tdiv(a1, a2))
            &&& fits_i32(a0 - a2)
            &&& fits_i32(slope(a4, a3, a2, a1) * (a0 - a2))
            &&& fits_i32(slope(a4, a3, a2, a1) * (a0 - a2) + a4)
        }
    } else if op == ADDPERCENT as i32 {
        fits_i32(a1 * a0) && fits_i32(tdiv((a1 * a0) as i32, 100) + a1)
    } else if op == SETBIT as i32 || op == TESTBIT as i32 {
        0 <= a0 < 32
    } else if op == CLEARBIT as i32 || op == SETBIT_RANGE as i32 {
        range_ok(a1, a2)
    } else if op == MODULO as i32 {
        div_ok(a0, a1)
    } else if op == SCALE as i32 {
        fits_i32(a0 * a1) && div_ok((a0 * a1) as i32, a2)
    } else if op == TOGGLEBIT as i32 {
        0 <= a1 < 32
    } else if op == GETBIT_RANGE as i32 {
        0 <= a2 <= 31 && 0 <= a1 + (31 - a2) < 32
    } else if op == SETBIT_RANGE_TOINT as i32 {
        range_ok(a2, a3)
    } else if op == ABS as i32 {
        a0 != i32::MIN
    } else {
        true
    }
}

/// Whether `roll` is a value the random instructions may draw on `m`: below the popped bound
/// for `RANDOM`, up to it for `RANDOMINC` (any value when the bound leaves nothing to draw).
pub open spec fn roll_ok(m: StateModel, op: i32, roll: i32) -> bool {
    let a = nth(m, 0);
    &&& op == RANDOM as i32 && a > 0 ==> 0 <= roll < a
    &&& op == RANDOMINC as i32 && a >= 0 ==> 0 <= roll <= a
}

/// The value the handler of `op` pushes, with `roll` as the random draw.
pub open spec fn math_result(m: StateModel, op: i32, roll: i32) -> i32 {
    let a0 = nth(m, 0);
    let a1 = nth(m, 1);
    let a2 = nth(m, 2);
    let a3 = nth(m, 3);
    let a4 = nth(m, 4);
    if op == ADD as i32 {
        (a1 + a0) as i32
    } else if op == SUB as i32 {
        (a1 - a0) as i32
    } else if op == MULTIPLY as i32 {
        (a1 * a0) as i32
    } else if op == DIVIDE as i32 {
        tdiv(a1, a0)
    } else if op == RANDOM as i32 {
        if a0 <= 0 {
            0
        } else {
            roll
        }
    } else if op == RANDOMINC as i32 {
        if a0 < 0 {
            0
        } else {
            roll
        }
    } else if op == INTERPOLATE as i32 {
        if a1 == a2 {
            a4
        } else {
            (slope(a4, a3, a2, a1) * (a0 - a2) + a4) as i32
        }
    } else if op == ADDPERCENT as i32 {
        (tdiv((a1 * a0) as i32, 100) + a1) as i32
    } else if op == SETBIT as i32 {
        a1 | (1i32 << (a0 as u32))
    } else if op == CLEARBIT as i32 {
        a0 & !(mask_value((a2 - a1 + 1) as u32) << (a1 as u32))
    } else if op == TESTBIT as i32 {
        if (a1 & (1i32 << (a0 as u32))) != 0 {
            1
        } else {
            0
        }
    } else if op == MODULO as i32 {
        tmod(a0, a1)
    } else if op == AND as i32 {
        a0 & a1
    } else if op == OR as i32 {
        a0 | a1
    } else if op == MIN as i32 {
        if a0 <= a1 {
            a0
        } else {
            a1
        }
    } else if op == MAX as i32 {
        if a0 >= a1 {
            a0
        } else {
            a1
        }
    } else if op == SCALE as i32 {
        tdiv((a0 * a1) as i32, a2)
    } else if op == BITCOUNT as i32 {
        popcount(a0 as u32) as i32
    } else if op == TOGGLEBIT as i32 {
        a0 ^ (1i32 << (a1 as u32))
    } else if op == SETBIT_RANGE as i32 {
        a0 | (mask_value((a2 - a1 + 1) as u32) << (a1 as u32))
    } else if op == GETBIT_RANGE as i32 {
        let shift = (31 - a2) as i32;
        (((a0 << (shift as u32)) as u32) >> ((a1 + shift) as u32)) as i32
    } else if op == SETBIT_RANGE_TOINT as i32 {
        let cleared = a0 & !(mask_value((a3 - a2 + 1) as u32) << (a2 as u32));
        let max_value = mask_value((a3 - a2 + 1) as u32);
        let assigned = if a1 > max_value {
            max_value
        } else {
            a1
        };
        cleared | (assigned << (a2 as u32))
    } else {
        // ABS
        if a0 < 0 {
            (-a0) as i32
        } else {
            a0
        }
    }
}

/// The state after the handler of `op` runs on `m`, with `roll` as the random draw.
pub open spec fn math_state(m: StateModel, op: i32, roll: i32) -> StateModel {
    if is_inert_math_op(op) {
        m
    } else {
        push_int_state(StateModel { isp: m.isp - arity(op), ..m }, math_result(m, op, roll))
    }
}

/// Draws a number in `0..bound` with `rand::Rng::random_range` on the thread-local generator.
/// Claims what the crate documents for a non-empty half-open range: the value lies in it.
#[verifier::external_body]
fn random_below(bound: i32) -> (r: i32)
    requires
        bound > 0,
    ensures
        0 <= r < bound,
{
    rand::rng().random_range(0..bound)
}

/// Draws a number in `0..=bound` with `rand::Rng::random_range` on the thread-local
/// generator. Claims what the crate documents for a non-empty closed range: the value lies in it.
#[verifier::external_body]
fn random_through(bound: i32) -> (r: i32)
    requires
        bound >= 0,
    ensures
        0 <= r <= bound,
{
    rand::rng().random_range(0..=bound)
}

/// Runs the integer math handler of `opcode` on `state`, using `roll` as the draw of the
/// random instructions. Returns whether `opcode` has such a handler (the state is otherwise
/// left alone).
pub fn apply_math_opcode(state: &mut ScriptState, opcode: i32, roll: i32) -> (handled: bool)
    requires
        is_integer_math_op(opcode) ==> math_ok(old(state)@, opcode) && roll_ok(
            old(state)@,
            opcode,
            roll,
        ),
    ensures
        handled == is_integer_math_op(opcode),
        handled ==> final(state)@ == math_state(old(state)@, opcode, roll),
        !handled ==> final(state)@ == old(state)@,
{
    let ghost m = state@;
    if opcode == SIN_DEG as i32 || opcode == COS_DEG as i32 || opcode == ATAN2_DEG as i32 {
        return true;
    }
    let result: i32;
    if opcode == ADD as i32 || opcode == SUB as i32 || opcode == MULTIPLY as i32 || opcode
        == DIVIDE as i32 || opcode == ADDPERCENT as i32 || opcode == SETBIT as i32 || opcode
        == TESTBIT as i32 {
        let b = state.pop_int();
        let a = state.pop_int();
        result = if opcode == ADD as i32 {
            a + b
        } else if opcode == SUB as i32 {
            a - b
        } else if opcode == MULTIPLY as i32 {
            a * b
        } else if opcode == DIVIDE as i32 {
            a / b
        } else if opcode == ADDPERCENT as i32 {
            ((a * b) / 100) + a
        } else if opcode == SETBIT as i32 {
            a | (1i32 << (b as u32))
        } else if (a & (1i32 << (b as u32))) != 0 {
            1
        } else {
            0
        };
    } else if opcode == RANDOM as i32 || opcode == RANDOMINC as i32 {
        let a = state.pop_int();
        result = if opcode == RANDOM as i32 {
            if a <= 0 {
                0
            } else {
                roll
            }
        } else if a < 0 {
            0
        } else {
            roll
        };
    } else if opcode == INTERPOLATE as i32 {
        let x = state.pop_int();
        let x1 = state.pop_int();
        let x0 = state.pop_int();
        let y1 = state.pop_int();
        let y0 = state.pop_int();
        result = if x1 == x0 {
            y0
        } else {
            let s = (y1 - y0) / (x1 / x0);
            (s * (x - x0)) + y0
        };
    } else if opcode == MODULO as i32 || opcode == AND as i32 || opcode == OR as i32 || opcode
        == MIN as i32 || opcode == MAX as i32 || opcode == TOGGLEBIT as i32 {
        let values = state.pop_ints(2);
        let v0 = values[0];
        let v1 = values[1];
        result = if opcode == MODULO as i32 {
            v0 % v1
        } else if opcode == AND as i32 {
            v0 & v1
        } else if opcode == OR as i32 {
            v0 | v1
        } else if opcode == MIN as i32 {
            if v0 <= v1 {
                v0
            } else {
                v1
            }
        } else if opcode == MAX as i32 {
            if v0 >= v1 {
                v0
            } else {
                v1
            }
        } else {
            v0 ^ (1i32 << (v1 as u32))
        };
    } else if opcode == SCALE as i32 || opcode == CLEARBIT as i32 || opcode == SETBIT_RANGE as i32
        || opcode == GETBIT_RANGE as i32 {
        let values = state.pop_ints(3);
        let v0 = values[0];
        let v1 = values[1];
        let v2 = values[2];
        result = if opcode == SCALE as i32 {
            (v0 * v1) / v2
        } else if opcode == CLEARBIT as i32 {
            clear_bit_range(v0, v1, v2)
        } else if opcode == SETBIT_RANGE as i32 {
            set_bit_range(v0, v1, v2)
        } else {
            let shift = 31 - v2;
            let shifted_left = (v0 << (shift as u32)) as u32;
            (shifted_left >> ((v1 + shift) as u32)) as i32
        };
    } else if opcode == SETBIT_RANGE_TOINT as i32 {
        let values = state.pop_ints(4);
        let v0 = values[0];
        let v1 = values[1];
        let v2 = values[2];
        let v3 = values[3];
        let cleared = clear_bit_range(v0, v2, v3);
        let mask_table = crate::bits::init_mask_array();
        let max_value = mask_table[(v3 - v2 + 1) as usize];
        let mut assigned = v1;
        if v1 > max_value {
            assigned = max_value;
        }
        result = cleared | (assigned << (v2 as u32));
    } else if opcode == BITCOUNT as i32 {
        let v = state.pop_int();
        result = bitcount(v);
    } else if opcode == ABS as i32 {
        let v = state.pop_int();
        result = if v < 0 {
            -v
        } else {
            v
        };
    } else {
        return false;
    }
    assert(result == math_result(m, opcode, roll));
    state.push_int(result);
    assert(state@ =~= math_state(m, opcode, roll));
    true
}

/// Runs the integer math handler of `opcode` on `state`, drawing from the thread-local
/// generator for `RANDOM` and `RANDOMINC`. Returns whether `opcode` has such a handler (the
/// state is otherwise left alone).
pub fn execute_math_opcode(state: &mut ScriptState, opcode: i32) -> (handled: bool)
    requires
        is_integer_math_op(opcode) ==> math_ok(old(state)@, opcode),
    ensures
        handled == is_integer_math_op(opcode),
        handled ==> exists|roll: i32|
            roll_ok(old(state)@, opcode, roll) && final(state)@ == math_state(
                old(state)@,
                opcode,
                roll,
            ),
        !handled ==> final(state)@ == old(state)@,
{
    let ghost m = state@;
    let mut roll: i32 = 0;
    if opcode == RANDOM as i32 || opcode == RANDOMINC as i32 {
        let bound = if state.isp >= 1 && state.isp - 1 < state.int_stack.len() {
            state.int_stack[state.isp - 1]
        } else {
            0
        };
        if opcode == RANDOM as i32 && bound > 0 {
            roll = random_below(bound);
        } else if opcode == RANDOMINC as i32 && bound >= 0 {
            roll = random_through(bound);
        }
    }
    assert(roll_ok(m, opcode, roll));
    apply_math_opcode(state, opcode, roll)
}

/// The opcodes that the math handlers cover.
pub fn get_math_ops() -> (ops: Vec<i32>)
    ensures
        forall|op: i32| ops@.contains(op) <==> is_math_op(op),
{
    let ops = vec![
        ADD as i32,
        SUB as i32,
        MULTIPLY as i32,
        DIVIDE as i32,
        RANDOM as i32,
        RANDOMINC as i32,
        INTERPOLATE as i32,
        ADDPERCENT as i32,
        SETBIT as i32,
        CLEARBIT as i32,
        TESTBIT as i32,
        MODULO as i32,
        POW as i32,
        INVPOW as i32,
        AND as i32,
        OR as i32,
        MIN as i32,
        MAX as i32,
        SCALE as i32,
        BITCOUNT as i32,
        TOGGLEBIT as i32,
        SETBIT_RANGE as i32,
        GETBIT_RANGE as i32,
        SETBIT_RANGE_TOINT as i32,
        SIN_DEG as i32,
        COS_DEG as i32,
        ATAN2_DEG as i32,
        ABS as i32,
    ];
    assert forall|op: i32| is_math_op(op) implies ops@.contains(op) by {
        if op == ADD as i32 { assert(ops@[0] == op); }
        else if op == SUB as i32 { assert(ops@[1] == op); }
        else if op == MULTIPLY as i32 { assert(ops@[2] == op); }
        else if op == DIVIDE as i32 { assert(ops@[3] == op); }
        else if op == RANDOM as i32 { assert(ops@[4] == op); }
        else if op == RANDOMINC as i32 { assert(ops@[5] == op); }
        else if op == INTERPOLATE as i32 { assert(ops@[6] == op); }
        else if op == ADDPERCENT as i32 { assert(ops@[7] == op); }
        else if op == SETBIT as i32 { assert(ops@[8] == op); }
        else if op == CLEARBIT as i32 { assert(ops@[9] == op); }
        else if op == TESTBIT as i32 { assert(ops@[10] == op); }
        else if op == MODULO as i32 { assert(ops@[11] == op); }
        else if op == POW as i32 { assert(ops@[12] == op); }
        else if op == INVPOW as i32 { assert(ops@[13] == op); }
        else if op == AND as i32 { assert(ops@[14] == op); }
        else if op == OR as i32 { assert(ops@[15] == op); }
        else if op == MIN as i32 { assert(ops@[16] == op); }
        else if op == MAX as i32 { assert(ops@[17] == op); }
        else if op == SCALE as i32 { assert(ops@[18] == op); }
        else if op == BITCOUNT as i32 { assert(ops@[19] == op); }
        else if op == TOGGLEBIT as i32 { assert(ops@[20] == op); }
        else if op == SETBIT_RANGE as i32 { assert(ops@[21] == op); }
        else if op == GETBIT_RANGE as i32 { assert(ops@[22] == op); }
        else if op == SETBIT_RANGE_TOINT as i32 { assert(ops@[23] == op); }
        else if op == SIN_DEG as i32 { assert(ops@[24] == op); }
        else if op == COS_DEG as i32 { assert(ops@[25] == op); }
        else if op == ATAN2_DEG as i32 { assert(ops@[26] == op); }
        else { assert(ops@[27] == op); }
    }
    ops
}

} // verus!
