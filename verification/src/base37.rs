use vstd::prelude::*;
use vstd::string::StrSliceExecFns;
use crate::text::push_char;

verus! {

/// Whether `c` has a base-37 digit: a lower-case ASCII letter or an ASCII digit.
pub open spec fn is_b37_char(c: char) -> bool {
    ('a' <= c && c <= 'z') || ('0' <= c && c <= '9')
}

/// The base-37 digit of `c`: 1..=26 for `a`..=`z`, 27..=36 for `0`..=`9`.
pub open spec fn b37_digit(c: char) -> int {
    if 'a' <= c && c <= 'z' {
        c as int - 'a' as int + 1
    } else {
        c as int - '0' as int + 27
    }
}

/// The character of base-37 digit `d`; `_` for 0.
pub open spec fn b37_char(d: int) -> char {
    if 1 <= d <= 26 {
        ('a' as int + d - 1) as char
    } else if 27 <= d <= 36 {
        ('0' as int + d - 27) as char
    } else {
        '_'
    }
}

/// Whether every character of `s` has a base-37 digit.
pub open spec fn all_b37(s: Seq<char>) -> bool {
    forall|i: int| 0 <= i < s.len() ==> is_b37_char(#[trigger] s[i])
}

/// The number whose base-37 digits, most significant first, are those of `s`.
pub open spec fn b37_value(s: Seq<char>) -> int
    decreases s.len(),
{
    if s.len() == 0 {
        0
    } else {
        b37_value(s.drop_last()) * 37 + b37_digit(s.last())
    }
}

/// What `encode37` returns: `None` for the empty string, for a string holding a space or
/// any character without a base-37 digit, and otherwise the base-37 value.
pub open spec fn encode37_spec(s: Seq<char>) -> Option<i64> {
    if s.len() == 0 || s.contains(' ') || !all_b37(s) {
        None
    } else {
        Some(b37_value(s) as i64)
    }
}

/// Whether `encode37` can run on `s` without overflowing: every prefix made only of
/// base-37 characters has a value that fits in an `i64` (only checked when there is no space).
pub open spec fn encode37_fits(s: Seq<char>) -> bool {
    !s.contains(' ') ==> forall|j: int|
        0 <= j <= s.len() && all_b37(#[trigger] s.take(j)) ==> b37_value(s.take(j)) <= i64::MAX
}

/// The base-37 digits of `v`, most significant first (empty for 0).
pub open spec fn b37_digits(v: nat) -> Seq<char>
    decreases v,
{
    if v == 0 {
        Seq::empty()
    } else {
        b37_digits(v / 37).push(b37_char((v % 37) as int))
    }
}

/// What `decode37` returns: `_` for 0, otherwise the base-37 digits of `v`.
pub open spec fn decode37_spec(v: u64) -> Seq<char> {
    if v == 0 {
        seq!['_']
    } else {
        b37_digits(v as nat)
    }
}

/// Spells `value` in base 37 (letters, then digits; `_` for a zero digit).
pub fn decode37(value: u64) -> (s: String)
    ensures
        s@ == decode37_spec(value),
{
    if value == 0 {
        let mut s = String::new();
        push_char(&mut s, '_');
        return s;
    }
    let mut v = value;
    let mut chars: Vec<char> = Vec::new();
    while v != 0
        invariant
            v <= value,
            value != 0,
            b37_digits(value as nat) == b37_digits(v as nat) + chars@.reverse(),
        decreases v,
    {
        let remainder = (v % 37) as u8;
        let next = v / 37;
        let c = if 1 <= remainder && remainder <= 26 {
            (97u8 + remainder - 1) as char
        } else if 27 <= remainder && remainder <= 36 {
            (48u8 + remainder - 27) as char
        } else {
            '_'
        };
        assert(c == b37_char((v % 37) as int));
        proof {
            assert(b37_digits(v as nat) == b37_digits(next as nat).push(c));
            assert(chars@.push(c).reverse() =~= seq![c] + chars@.reverse());
            assert(b37_digits(next as nat).push(c) + chars@.reverse() =~= b37_digits(next as nat)
                + (seq![c] + chars@.reverse()));
        }
        chars.push(c);
        v = next;
    }
    assert(chars@.reverse() =~= b37_digits(value as nat)) by {
        assert(b37_digits(0) =~= Seq::<char>::empty());
    }
    let mut s = String::new();
    let mut i = chars.len();
    while i > 0
        invariant
            i <= chars@.len(),
            s@ =~= chars@.reverse().take(chars@.len() - i),
        decreases i,
    {
        i -= 1;
        push_char(&mut s, chars[i]);
        assert(chars@.reverse().take(chars@.len() - i) =~= chars@.reverse().take(
            chars@.len() - i - 1,
        ).push(chars@[i as int]));
    }
    assert(chars@.reverse().take(chars@.len() as int) =~= chars@.reverse());
    s
}

/// The base-37 value of `string`, or `None` when it is empty, holds a space, or holds a
/// character other than a lower-case ASCII letter or ASCII digit.
pub fn encode37(string: &str) -> (r: Option<i64>)
    requires
        encode37_fits(string@),
    ensures
        r == encode37_spec(string@),
{
    let n = string.unicode_len();
    if n == 0 {
        return None;
    }
    let mut k: usize = 0;
    while k < n
        invariant
            n == string@.len(),
            k <= n,
            forall|j: int| 0 <= j < k ==> string@[j] != ' ',
        decreases n - k,
    {
        if string.get_char(k) == ' ' {
            assert(string@.contains(' '));
            return None;
        }
        k += 1;
    }
    assert(!string@.contains(' '));
    let mut result: i64 = 0;
    let mut i: usize = 0;
    while i < n
        invariant
            n == string@.len(),
            i <= n,
            !string@.contains(' '),
            encode37_fits(string@),
            all_b37(string@.take(i as int)),
            result == b37_value(string@.take(i as int)),
        decreases n - i,
    {
        let c = string.get_char(i);
        let value: i64 = if 'a' <= c && c <= 'z' {
            (c as u32 - 'a' as u32 + 1) as i64
        } else if '0' <= c && c <= '9' {
            (c as u32 - '0' as u32 + 27) as i64
        } else {
            assert(!all_b37(string@));
            return None;
        };
        let ghost next = string@.take(i + 1);
        assert(next.drop_last() =~= string@.take(i as int));
        assert(all_b37(next));
        assert(b37_value(next) <= i64::MAX);
        assert(next.last() == c);
        assert(value == b37_digit(c));
        assert(b37_value(next) == result * 37 + value);
        proof {
            lemma_digits_of_value(string@.take(i as int));
        }
        result = result * 37 + value;
        i += 1;
    }
    assert(string@.take(n as int) =~= string@);
    Some(result)
}

proof fn lemma_digit_char(c: char)
    requires
        is_b37_char(c),
    ensures
        1 <= b37_digit(c) <= 36,
        b37_char(b37_digit(c)) == c,
{
}

proof fn lemma_digits_of_value(s: Seq<char>)
    requires
        all_b37(s),
    ensures
        b37_digits(b37_value(s) as nat) == s,
        s.len() > 0 ==> b37_value(s) > 0,
        b37_value(s) >= 0,
    decreases s.len(),
{
    if s.len() > 0 {
        let p = s.drop_last();
        assert(all_b37(p)) by {
            assert forall|i: int| 0 <= i < p.len() implies is_b37_char(#[trigger] p[i]) by {
                assert(p[i] == s[i]);
            }
        }
        lemma_digits_of_value(p);
        lemma_digit_char(s.last());
        let v = b37_value(s);
        let d = b37_digit(s.last());
        assert(v == b37_value(p) * 37 + d);
        assert(v / 37 == b37_value(p) && v % 37 == d) by (nonlinear_arith)
            requires
                v == b37_value(p) * 37 + d,
                1 <= d <= 36,
                b37_value(p) >= 0,
        ;
        assert(s =~= p.push(s.last()));
    }
}

/// Encoding a name with `encode37` and decoding the result with `decode37` gives the name back.
pub proof fn law_decode37_inverts_encode37(s: Seq<char>)
    requires
        encode37_spec(s) is Some,
        encode37_fits(s),
    ensures
        decode37_spec(encode37_spec(s)->0 as u64) == s,
{
    lemma_digits_of_value(s);
    assert(s.take(s.len() as int) =~= s);
    assert(b37_value(s.take(s.len() as int)) <= i64::MAX);
}

} // verus!
