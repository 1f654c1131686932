use vstd::prelude::*;
use crate::bits::{ibit, law_bit_ranges, popcount};
use crate::math_ops::{arity, is_inert_math_op, math_result, math_state, nth, roll_ok, tdiv, tmod};
use crate::script_opcode::{
    ABS, ADD, ADDPERCENT, AND, BITCOUNT, DIVIDE, MAX, MIN, MODULO, MULTIPLY, OR, RANDOM, RANDOMINC,
    CLEARBIT, GETBIT_RANGE, INTERPOLATE, SCALE, SETBIT, SETBIT_RANGE, SUB, TESTBIT, TOGGLEBIT,
};
use crate::script_ops::fits_i32;
use crate::script_state::{top_int, StateModel};

verus! {

/// A math instruction that pops `arity(op)` integers leaves its result on top of what is left.
proof fn lemma_result_on_top(m: StateModel, op: i32, roll: i32)
    requires
        arity(op) <= m.isp <= m.int_stack.len(),
        !is_inert_math_op(op),
    ensures
        top_int(math_state(m, op, roll)) == math_result(m, op, roll),
        math_state(m, op, roll).isp == m.isp - arity(op) + 1,
{
}

/// `MIN` pushes the smaller of the two integers it pops and `MAX` the larger: a result that
/// is no greater (no smaller) than both operands and is one of them.
pub proof fn law_min_max(m: StateModel, roll: i32)
    requires
        2 <= m.isp <= m.int_stack.len(),
    ensures
        ({
            let lo = top_int(math_state(m, MIN as i32, roll));
            &&& lo <= nth(m, 0) && lo <= nth(m, 1)
            &&& lo == nth(m, 0) || lo == nth(m, 1)
        }),
        ({
            let hi = top_int(math_state(m, MAX as i32, roll));
            &&& hi >= nth(m, 0) && hi >= nth(m, 1)
            &&& hi == nth(m, 0) || hi == nth(m, 1)
        }),
        math_state(m, MIN as i32, roll).isp == m.isp - 1,
        math_state(m, MAX as i32, roll).isp == m.isp - 1,
{
    lemma_result_on_top(m, MIN as i32, roll);
    lemma_result_on_top(m, MAX as i32, roll);
}

/// `ADD`, `SUB` and `MULTIPLY` combine the integer pushed first (`a`) with the one pushed
/// second (`b`): they push `a + b`, `a - b` and `a * b` when the result fits in an `i32`.
pub proof fn law_add_sub_multiply(m: StateModel, roll: i32)
    requires
        2 <= m.isp <= m.int_stack.len(),
    ensures
        ({
            let a = nth(m, 1) as int;
            let b = nth(m, 0) as int;
            &&& fits_i32(a + b) ==> top_int(math_state(m, ADD as i32, roll)) == a + b
            &&& fits_i32(a - b) ==> top_int(math_state(m, SUB as i32, roll)) == a - b
            &&& fits_i32(a * b) ==> top_int(math_state(m, MULTIPLY as i32, roll)) == a * b
        }),
{
    lemma_result_on_top(m, ADD as i32, roll);
    lemma_result_on_top(m, SUB as i32, roll);
    lemma_result_on_top(m, MULTIPLY as i32, roll);
}

/// Truncating division of `a` by `b`: `q` leaves a remainder `a - q * b` smaller than `b` in
/// size and carrying the sign of `a`.
pub open spec fn truncated_quotient(a: int, b: int, q: int) -> bool {
    let r = a - q * b;
    &&& (if r >= 0 { r } else { -r }) < (if b >= 0 { b } else { -b })
    &&& r == 0 || (r > 0) == (a > 0)
}

proof fn lemma_euclid(x: int, d: int)
    by (nonlinear_arith)
    requires
        x >= 0,
        d != 0,
    ensures
        x == d * (x / d) + x % d,
        x == (x / d) * d + x % d,
        0 <= x % d < (if d >= 0 { d } else { -d }),
        d > 0 ==> 0 <= x / d <= x,
        d < 0 ==> 0 <= -(x / d) <= x,
        d <= -2 ==> -(x / d) * 2 <= x,
        x % d <= x,
{
}

/// Rust's `/` and `%` on `i32` are truncating division and its remainder.
proof fn lemma_tdiv_tmod(a: i32, b: i32)
    requires
        b != 0,
        !(a == i32::MIN && b == -1),
    ensures
        truncated_quotient(a as int, b as int, tdiv(a, b) as int),
        tmod(a, b) as int == a - tdiv(a, b) * b,
{
    let d = b as int;
    if a >= 0 {
        let x = a as int;
        lemma_euclid(x, d);
        assert(tdiv(a, b) as int == x / d);
        assert(tmod(a, b) as int == x % d);
        let q = x / d;
        assert(x - q * d == x % d);
        assert(truncated_quotient(a as int, d, q));
    } else {
        let x = -(a as int);
        lemma_euclid(x, d);
        assert(x <= 0x8000_0000);
        assert(tdiv(a, b) as int == -(x / d));
        assert(tmod(a, b) as int == -(x % d));
        let q = -(x / d);
        assert(a - q * d == -(x % d)) by (nonlinear_arith)
            requires
                x == (x / d) * d + x % d,
                a == -x,
                q == -(x / d),
        ;
        assert(truncated_quotient(a as int, d, q));
    }
}

/// `DIVIDE` pushes the integer pushed first divided by the one pushed second, rounded toward
/// zero; `MODULO` pushes the remainder of the integer pushed second divided by the one pushed
/// first, with the sign of the dividend.
pub proof fn law_divide_modulo(m: StateModel, roll: i32)
    requires
        2 <= m.isp <= m.int_stack.len(),
    ensures
        ({
            let a = nth(m, 1);
            let b = nth(m, 0);
            b != 0 && !(a == i32::MIN && b == -1) ==> truncated_quotient(
                a as int,
                b as int,
                top_int(math_state(m, DIVIDE as i32, roll)) as int,
            )
        }),
        ({
            let a = nth(m, 0);
            let b = nth(m, 1);
            let r = top_int(math_state(m, MODULO as i32, roll)) as int;
            b != 0 && !(a == i32::MIN && b == -1) ==> exists|q: int|
                #![trigger truncated_quotient(a as int, b as int, q)]
                truncated_quotient(a as int, b as int, q) && r == a - q * b
        }),
{
    lemma_result_on_top(m, DIVIDE as i32, roll);
    lemma_result_on_top(m, MODULO as i32, roll);
    let a = nth(m, 1);
    let b = nth(m, 0);
    if b != 0 && !(a == i32::MIN && b == -1) {
        lemma_tdiv_tmod(a, b);
    }
    let a2 = nth(m, 0);
    let b2 = nth(m, 1);
    if b2 != 0 && !(a2 == i32::MIN && b2 == -1) {
        lemma_tdiv_tmod(a2, b2);
        assert(truncated_quotient(a2 as int, b2 as int, tdiv(a2, b2) as int));
    }
}

/// `ABS` pushes the size of the integer it pops: not negative, and the integer or its negation.
pub proof fn law_abs(m: StateModel, roll: i32)
    requires
        1 <= m.isp <= m.int_stack.len(),
        nth(m, 0) != i32::MIN,
    ensures
        ({
            let r = top_int(math_state(m, ABS as i32, roll));
            &&& r >= 0
            &&& r == nth(m, 0) || r == -nth(m, 0)
        }),
        math_state(m, ABS as i32, roll).isp == m.isp,
{
    lemma_result_on_top(m, ABS as i32, roll);
}

/// The bit instructions: `AND` and `OR` combine the two integers bit by bit; `SETBIT` sets bit
/// `b` (the integer pushed second) of `v` (pushed first) and keeps the other bits; `TESTBIT`
/// pushes 1 when bit `b` of `v` is set and 0 otherwise; `TOGGLEBIT` flips bit `b` (pushed first)
/// of `v` (pushed second) and no other; `BITCOUNT` pushes the number of 1 bits of what it pops.
pub proof fn law_bit_instructions(m: StateModel, roll: i32)
    requires
        2 <= m.isp <= m.int_stack.len(),
    ensures
        top_int(math_state(m, AND as i32, roll)) == nth(m, 0) & nth(m, 1),
        top_int(math_state(m, OR as i32, roll)) == nth(m, 0) | nth(m, 1),
        ({
            let v = nth(m, 1);
            let b = nth(m, 0);
            let r = top_int(math_state(m, SETBIT as i32, roll));
            let t = top_int(math_state(m, TESTBIT as i32, roll));
            0 <= b < 32 ==> {
                &&& (r >> (b as u32)) & 1 == 1
                &&& r & !(1i32 << (b as u32)) == v & !(1i32 << (b as u32))
                &&& t == 0 || t == 1
                &&& (t == 1) == ((v >> (b as u32)) & 1 == 1)
            }
        }),
        ({
            let v = nth(m, 0);
            let b = nth(m, 1);
            let r = top_int(math_state(m, TOGGLEBIT as i32, roll));
            0 <= b < 32 ==> r ^ v == 1i32 << (b as u32)
        }),
        top_int(math_state(m, BITCOUNT as i32, roll)) == popcount(nth(m, 0) as u32) as i32,
{
    lemma_result_on_top(m, AND as i32, roll);
    lemma_result_on_top(m, OR as i32, roll);
    lemma_result_on_top(m, SETBIT as i32, roll);
    lemma_result_on_top(m, TESTBIT as i32, roll);
    lemma_result_on_top(m, TOGGLEBIT as i32, roll);
    lemma_result_on_top(m, BITCOUNT as i32, roll);
    let v = nth(m, 1);
    let b = nth(m, 0);
    if 0 <= b < 32 {
        let k = b as u32;
        assert(((v | (1i32 << k)) >> k) & 1 == 1) by (bit_vector)
            requires
                k < 32,
        ;
        assert((v | (1i32 << k)) & !(1i32 << k) == v & !(1i32 << k)) by (bit_vector);
        assert(((v & (1i32 << k)) != 0) == ((v >> k) & 1 == 1)) by (bit_vector)
            requires
                k < 32,
        ;
    }
    let v2 = nth(m, 0);
    let b2 = nth(m, 1);
    if 0 <= b2 < 32 {
        let k2 = b2 as u32;
        assert((v2 ^ (1i32 << k2)) ^ v2 == 1i32 << k2) by (bit_vector);
    }
}

/// `SCALE` multiplies the two integers pushed last and divides by the one pushed before them,
/// rounding toward zero; `ADDPERCENT` adds to `n` (pushed first) `p` percent of it (`p`
/// pushed second), the percentage rounded toward zero.
pub proof fn law_scale_addpercent(m: StateModel, roll: i32)
    requires
        3 <= m.isp <= m.int_stack.len(),
    ensures
        ({
            let x = nth(m, 0) as int * nth(m, 1) as int;
            let d = nth(m, 2);
            fits_i32(x) && d != 0 && !(x == i32::MIN && d == -1) ==> truncated_quotient(
                x,
                d as int,
                top_int(math_state(m, SCALE as i32, roll)) as int,
            )
        }),
        ({
            let n = nth(m, 1) as int;
            let x = n * nth(m, 0) as int;
            let r = top_int(math_state(m, ADDPERCENT as i32, roll)) as int;
            fits_i32(x) && fits_i32(tdiv(x as i32, 100) + n) ==> truncated_quotient(x, 100, r - n)
        }),
{
    lemma_result_on_top(m, SCALE as i32, roll);
    lemma_result_on_top(m, ADDPERCENT as i32, roll);
    let x = nth(m, 0) as int * nth(m, 1) as int;
    let d = nth(m, 2);
    if fits_i32(x) && d != 0 && !(x == i32::MIN && d == -1) {
        lemma_tdiv_tmod(x as i32, d);
    }
    let x2 = nth(m, 1) as int * nth(m, 0) as int;
    if fits_i32(x2) {
        lemma_tdiv_tmod(x2 as i32, 100);
    }
}

/// `RANDOM` pushes a number from 0 up to, not including, the bound it pops (0 when the bound
/// is not positive); `RANDOMINC` one from 0 up to and including the bound (0 when the bound is
/// negative).
pub proof fn law_random_ranges(m: StateModel, roll: i32)
    requires
        1 <= m.isp <= m.int_stack.len(),
    ensures
        ({
            let bound = nth(m, 0);
            let r = top_int(math_state(m, RANDOM as i32, roll));
            roll_ok(m, RANDOM as i32, roll) ==> 0 <= r && (bound > 0 ==> r < bound) && (bound
                <= 0 ==> r == 0)
        }),
        ({
            let bound = nth(m, 0);
            let r = top_int(math_state(m, RANDOMINC as i32, roll));
            roll_ok(m, RANDOMINC as i32, roll) ==> 0 <= r && (bound >= 0 ==> r <= bound) && (
            bound < 0 ==> r == 0)
        }),
        math_state(m, RANDOM as i32, roll).isp == m.isp,
        math_state(m, RANDOMINC as i32, roll).isp == m.isp,
{
    lemma_result_on_top(m, RANDOM as i32, roll);
    lemma_result_on_top(m, RANDOMINC as i32, roll);
}

/// `SETBIT_RANGE` sets, and `CLEARBIT` clears, bits `s` to `e` of `v`, where `v` is the
/// integer on top, `s` the one below it and `e` the one below that; every other bit of `v` is
/// kept.
pub proof fn law_bit_range_instructions(m: StateModel, roll: i32, i: u32)
    requires
        3 <= m.isp <= m.int_stack.len(),
        0 <= nth(m, 1) < 32,
        0 <= nth(m, 2) - nth(m, 1) + 1 <= 32,
        i < 32,
    ensures
        ({
            let v = nth(m, 0);
            let s = nth(m, 1);
            let e = nth(m, 2);
            &&& ibit(top_int(math_state(m, SETBIT_RANGE as i32, roll)), i) == if s <= i <= e {
                1
            } else {
                ibit(v, i)
            }
            &&& ibit(top_int(math_state(m, CLEARBIT as i32, roll)), i) == if s <= i <= e {
                0
            } else {
                ibit(v, i)
            }
        }),
{
    lemma_result_on_top(m, SETBIT_RANGE as i32, roll);
    lemma_result_on_top(m, CLEARBIT as i32, roll);
    law_bit_ranges(nth(m, 0), nth(m, 1), nth(m, 2), i);
}

/// `GETBIT_RANGE` pushes bits `s` to `e` of `v` moved down to bit 0, with every higher bit
/// clear, where `v` is the integer on top, `s` the one below it and `e` the one below that.
pub proof fn law_getbit_range(m: StateModel, roll: i32, i: u32)
    requires
        3 <= m.isp <= m.int_stack.len(),
        0 <= nth(m, 1) <= nth(m, 2) <= 31,
        i < 32,
    ensures
        ({
            let v = nth(m, 0);
            let s = nth(m, 1);
            let e = nth(m, 2);
            let r = top_int(math_state(m, GETBIT_RANGE as i32, roll));
            ibit(r, i) == if i <= e - s {
                ibit(v, (s + i) as u32)
            } else {
                0
            }
        }),
{
    lemma_result_on_top(m, GETBIT_RANGE as i32, roll);
    let v = nth(m, 0);
    let s = nth(m, 1);
    let e = nth(m, 2);
    let sh = (31 - e) as i32;
    let su = s as u32;
    let eu = e as u32;
    let shu = sh as u32;
    assert(((((v << shu) as u32) >> (su + shu)) as i32 >> i) & 1i32 == if i <= eu - su {
        (v >> (su + i)) & 1i32
    } else {
        0
    }) by (bit_vector)
        requires
            su <= eu <= 31,
            shu == 31 - eu,
            i < 32,
    ;
}

/// `INTERPOLATE` passes through its first point: asked at `x0` (or given two points with the
/// same `x`), it pushes `y0`. The operands are, from the top, `x`, `x1`, `x0`, `y1` and `y0`.
pub proof fn law_interpolate_start(m: StateModel, roll: i32)
    requires
        5 <= m.isp <= m.int_stack.len(),
        nth(m, 0) == nth(m, 2) || nth(m, 1) == nth(m, 2),
    ensures
        top_int(math_state(m, INTERPOLATE as i32, roll)) == nth(m, 4),
{
    lemma_result_on_top(m, INTERPOLATE as i32, roll);
}

} // verus!
