use vstd::prelude::*;
use vstd::std_specs::iter::IteratorSpec;

verus! {

/// Appends `c` to `s` with `String::push`.
/// Claims what the standard library documents: the string gains exactly `c` at its end.
#[verifier::external_body]
pub(crate) fn push_char(s: &mut String, c: char)
    ensures
        final(s)@ == old(s)@.push(c),
{
    s.push(c);
}

/// Appends each character of `chars` to `s`, in order.
pub fn push_str_chars(s: &mut String, chars: &[char])
    ensures
        final(s)@ == old(s)@ + chars@,
{
    let mut i: usize = 0;
    while i < chars.len()
        invariant
            i <= chars@.len(),
            s@ == old(s)@ + chars@.take(i as int),
        decreases chars@.len() - i,
    {
        push_char(s, chars[i]);
        assert(chars@.take(i + 1) =~= chars@.take(i as int).push(chars@[i as int]));
        i += 1;
    }
    assert(chars@.take(chars@.len() as int) =~= chars@);
}

/// The characters of `s`, in order.
pub fn chars_of(s: &str) -> (v: Vec<char>)
    ensures
        v@ == s@,
{
    let mut v: Vec<char> = Vec::new();
    for c in it: s.chars()
        invariant
            it.seq() == s@,
            v@ == s@.take(it.index() as int),
    {
        v.push(c);
        assert(s@.take(it.index() + 1) =~= v@);
    }
    assert(v@ =~= s@);
    v
}

/// The string made of the characters `chars[from..to]`.
pub fn string_of_range(chars: &Vec<char>, from: usize, to: usize) -> (s: String)
    requires
        from <= to <= chars@.len(),
    ensures
        s@ == chars@.subrange(from as int, to as int),
{
    let mut s = String::new();
    let mut i: usize = from;
    while i < to
        invariant
            from <= i <= to <= chars@.len(),
            s@ == chars@.subrange(from as int, i as int),
        decreases to - i,
    {
        push_char(&mut s, chars[i]);
        assert(chars@.subrange(from as int, i + 1) =~= chars@.subrange(from as int, i as int).push(chars@[i as int]));
        i += 1;
    }
    s
}

/// The decimal digits of `n`, most significant first (`"0"` for zero).
pub open spec fn digits(n: nat) -> Seq<char>
    decreases n,
{
    if n < 10 {
        seq![((n + 48) as u8) as char]
    } else {
        digits(n / 10).push((((n % 10) + 48) as u8) as char)
    }
}

/// The decimal text of `v`, with a leading `-` when it is negative.
pub open spec fn decimal(v: int) -> Seq<char> {
    if v < 0 {
        seq!['-'] + digits((-v) as nat)
    } else {
        digits(v as nat)
    }
}

fn push_digits(s: &mut String, n: u64)
    ensures
        final(s)@ == old(s)@ + digits(n as nat),
    decreases n,
{
    if n >= 10 {
        push_digits(s, n / 10);
    }
    let d: u8 = (n % 10) as u8;
    let c = (d + 48) as char;
    assert(c == (((n % 10) + 48) as u8) as char);
    push_char(s, c);
    if n >= 10 {
        assert(digits(n as nat) == digits((n / 10) as nat).push(c));
    } else {
        assert(digits(n as nat) == seq![c]);
    }
    assert(old(s)@ + digits(n as nat) =~= s@) by {
        if n >= 10 {
            assert(old(s)@ + digits((n / 10) as nat).push(c) =~= (old(s)@ + digits((n / 10) as nat)).push(c));
        } else {
            assert(old(s)@ + seq![c] =~= old(s)@.push(c));
        }
    }
}

/// The decimal text of `v`, as `ToString` on `i64` writes it.
pub(crate) fn int_to_string(v: i64) -> (s: String)
    ensures
        s@ == decimal(v as int),
{
    let mut s = String::new();
    if v < 0 {
        push_char(&mut s, '-');
        let magnitude: u64 = (0i128 - v as i128) as u64;
        push_digits(&mut s, magnitude);
        assert(s@ =~= seq!['-'] + digits((-v) as nat));
    } else {
        push_digits(&mut s, v as u64);
        assert(s@ =~= digits(v as nat));
    }
    s
}

} // verus!
