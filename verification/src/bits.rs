use vstd::prelude::*;

verus! {

/// Bit `i` of `x` (0 or 1).
pub open spec fn bit_of(x: u32, i: u32) -> u32 {
    (x >> i) & 1u32
}

/// The number of `1` bits in `x`.
pub open spec fn popcount(x: u32) -> u32 {
    (bit_of(x, 0) + bit_of(x, 1) + bit_of(x, 2) + bit_of(x, 3) + bit_of(x, 4) + bit_of(x, 5)
        + bit_of(x, 6) + bit_of(x, 7) + bit_of(x, 8) + bit_of(x, 9) + bit_of(x, 10) + bit_of(
        x,
        11,
    ) + bit_of(x, 12) + bit_of(x, 13) + bit_of(x, 14) + bit_of(x, 15) + bit_of(x, 16) + bit_of(
        x,
        17,
    ) + bit_of(x, 18) + bit_of(x, 19) + bit_of(x, 20) + bit_of(x, 21) + bit_of(x, 22) + bit_of(
        x,
        23,
    ) + bit_of(x, 24) + bit_of(x, 25) + bit_of(x, 26) + bit_of(x, 27) + bit_of(x, 28) + bit_of(
        x,
        29,
    ) + bit_of(x, 30) + bit_of(x, 31)) as u32
}

/// Returns the number of `1` bits in `value`.
pub fn bitcount(value: i32) -> (r: i32)
    ensures
        r == popcount(value as u32) as i32,
{
    let h = (value >> 1i32) & 0x5555_5555i32;
    assert(0 <= h <= 0x5555_5555i32) by (bit_vector)
        requires
            h == (value >> 1i32) & 0x5555_5555i32,
    ;
    let n1 = value.wrapping_sub(h);
    assert(n1 == (value - h) as i32) by (bit_vector)
        requires
            0 <= h,
            n1 == (if value - h < i32::MIN {
                (value - h + 0x1_0000_0000) as i32
            } else {
                (value - h) as i32
            }),
    ;
    let lo = n1 & 0x3333_3333i32;
    let hi = (n1 >> 2i32) & 0x3333_3333i32;
    assert(0 <= lo <= 0x3333_3333i32 && 0 <= hi <= 0x3333_3333i32) by (bit_vector)
        requires
            lo == n1 & 0x3333_3333i32,
            hi == (n1 >> 2i32) & 0x3333_3333i32,
    ;
    let n2 = lo + hi;
    assert(0 <= n2 >> 4i32 <= 0x0666_6666i32) by (bit_vector)
        requires
            0 <= n2 <= 0x6666_6666i32,
    ;
    let m = (n2 + (n2 >> 4i32)) & 0x0f0f_0f0fi32;
    let x = m as u32;
    let w = x.wrapping_mul(0x0101_0101u32);
    assert(w == ((x * 0x0101_0101u32) % 0x1_0000_0000) as u32);
    let r = (w as i32) >> 24i32;
    assert(r == popcount(value as u32) as i32) by (bit_vector)
        requires
            n1 == (value - ((value >> 1i32) & 0x5555_5555i32)) as i32,
            n2 == ((n1 & 0x3333_3333i32) + ((n1 >> 2i32) & 0x3333_3333i32)) as i32,
            m == ((n2 + (n2 >> 4i32)) as i32) & 0x0f0f_0f0fi32,
            x == m as u32,
            w == ((x * 0x0101_0101u32) % 0x1_0000_0000) as u32,
            r == (w as i32) >> 24i32,
    ;
    r
}

/// The mask of the low `n` bits (all 32 bits when `n` is 32).
pub open spec fn mask_value(n: u32) -> i32 {
    ((1u64 << n) - 1u64) as i32
}

/// Builds the table of bit masks: entry `i` has the low `i` bits set.
pub fn init_mask_array() -> (data: [i32; 33])
    ensures
        forall|i: int| 0 <= i < 33 ==> #[trigger] data@[i] == mask_value(i as u32),
{
    let mut data = [0i32; 33];
    let mut incrementor: u64 = 2;
    let mut i: usize = 1;
    assert(2u64 == 1u64 << 1u64) by (bit_vector);
    assert(data@[0] == mask_value(0)) by {
        assert(((1u64 << 0u32) - 1u64) as i32 == 0i32) by (bit_vector);
    }
    while i < 33
        invariant
            1 <= i <= 33,
            incrementor == 1u64 << (i as u64),
            forall|j: int| 0 <= j < i ==> #[trigger] data@[j] == mask_value(j as u32),
        decreases 33 - i,
    {
        let ghost k = i as u32;
        assert(1 <= incrementor && (incrementor - 1u64) as i32 == mask_value(k)) by (bit_vector)
            requires
                1 <= k <= 32,
                incrementor == 1u64 << (k as u64),
        ;
        data[i] = (incrementor - 1) as i32;
        assert(incrementor + incrementor == 1u64 << ((k + 1) as u64)) by (bit_vector)
            requires
                1 <= k <= 32,
                incrementor == 1u64 << (k as u64),
        ;
        incrementor = incrementor + incrementor;
        i += 1;
    }
    data
}

/// Sets bits `start_bit` through `end_bit` (inclusive) of `value` to 1.
pub fn set_bit_range(value: i32, start_bit: i32, end_bit: i32) -> (r: i32)
    requires
        0 <= start_bit < 32,
        0 <= end_bit - start_bit + 1 <= 32,
    ensures
        r == value | (mask_value((end_bit - start_bit + 1) as u32) << (start_bit as u32)),
{
    let mask_table = init_mask_array();
    let mask = mask_table[(end_bit - start_bit + 1) as usize];
    value | (mask << (start_bit as u32))
}

/// Clears bits `start_bit` through `end_bit` (inclusive) of `value` to 0.
pub fn clear_bit_range(value: i32, start_bit: i32, end_bit: i32) -> (r: i32)
    requires
        0 <= start_bit < 32,
        0 <= end_bit - start_bit + 1 <= 32,
    ensures
        r == value & !(mask_value((end_bit - start_bit + 1) as u32) << (start_bit as u32)),
{
    let mask_table = init_mask_array();
    let mask = mask_table[(end_bit - start_bit + 1) as usize];
    value & !(mask << (start_bit as u32))
}

/// Bit `i` of a signed value (0 or 1).
pub open spec fn ibit(x: i32, i: u32) -> i32 {
    (x >> i) & 1i32
}

/// `set_bit_range` sets exactly the bits from `start_bit` to `end_bit` (those below bit 32)
/// and leaves every other bit as it was; `clear_bit_range` clears exactly those bits.
pub proof fn law_bit_ranges(value: i32, start_bit: i32, end_bit: i32, i: u32)
    requires
        0 <= start_bit < 32,
        0 <= end_bit - start_bit + 1 <= 32,
        0 <= i < 32,
    ensures
        ibit(value | (mask_value((end_bit - start_bit + 1) as u32) << (start_bit as u32)), i) == if start_bit
            <= i <= end_bit {
            1
        } else {
            ibit(value, i)
        },
        ibit(value & !(mask_value((end_bit - start_bit + 1) as u32) << (start_bit as u32)), i) == if start_bit
            <= i <= end_bit {
            0
        } else {
            ibit(value, i)
        },
{
    let n = (end_bit - start_bit + 1) as u32;
    let m = mask_value(n);
    assert(ibit(value | (m << (start_bit as u32)), i) == if start_bit <= i <= end_bit {
        1
    } else {
        ibit(value, i)
    }) by (bit_vector)
        requires
            0 <= start_bit < 32,
            0 <= end_bit - start_bit + 1 <= 32,
            n == (end_bit - start_bit + 1) as u32,
            m == ((1u64 << n) - 1u64) as i32,
            0 <= i < 32,
    ;
    assert(ibit(value & !(m << (start_bit as u32)), i) == if start_bit <= i <= end_bit {
        0
    } else {
        ibit(value, i)
    }) by (bit_vector)
        requires
            0 <= start_bit < 32,
            0 <= end_bit - start_bit + 1 <= 32,
            n == (end_bit - start_bit + 1) as u32,
            m == ((1u64 << n) - 1u64) as i32,
            0 <= i < 32,
    ;
}

} // verus!
