use vstd::prelude::*;
use vstd::string::StringExecFns;
use vstd::std_specs::hash::spec_keys_iter;
use vstd::std_specs::iter::IteratorSpec;
use crate::param_helper::{ParamModel, ParamValue, Params};
use crate::text::{decimal, int_to_string};

verus! {

broadcast use vstd::std_specs::hash::group_hash_axioms;

/// `key` followed by the decimal text of `v`.
pub open spec fn int_line(key: Seq<char>, v: int) -> Seq<char> {
    key + decimal(v)
}

/// `key`, the decimal text of `v`, then `suffix`.
pub open spec fn wrapped_line(key: Seq<char>, v: int, suffix: Seq<char>) -> Seq<char> {
    key + decimal(v) + suffix
}

/// `prefix`, the decimal text of `n`, `mid`, then `text`.
pub open spec fn numbered_text(prefix: Seq<char>, n: int, mid: Seq<char>, text: Seq<char>) -> Seq<
    char,
> {
    prefix + decimal(n) + mid + text
}

/// `key` followed by the decimal texts of `a`, `b` and `c`, comma separated.
pub open spec fn triple_line(key: Seq<char>, a: int, b: int, c: int) -> Seq<char> {
    key + decimal(a) + ","@ + decimal(b) + ","@ + decimal(c)
}

/// The text of a parameter value: the string itself, or the decimal text of the integer.
pub open spec fn param_text(v: ParamModel) -> Seq<char> {
    match v {
        ParamModel::String(s) => s,
        ParamModel::Integer(i) => decimal(i as int),
    }
}

/// The line of parameter `key` with value `v`.
pub open spec fn param_line(key: i32, v: ParamModel) -> Seq<char> {
    "param=param_"@ + decimal(key as int) + ","@ + param_text(v)
}

/// The lines of the parameters of `params`, in the order of `keys`.
pub open spec fn param_lines(params: Map<i32, ParamModel>, keys: Seq<i32>) -> Seq<Seq<char>> {
    Seq::new(keys.len(), |i: int| param_line(keys[i], params[keys[i]]))
}

/// The two lines of pair `i` (counted from 1) of a colour table: `<prefix><i>s=<s>` and
/// `<prefix><i>d=<d>`, for the first `n` pairs.
pub open spec fn pair_lines(prefix: Seq<char>, s: Seq<u16>, d: Seq<u16>, n: nat) -> Seq<Seq<char>>
    decreases n,
{
    if n == 0 {
        Seq::empty()
    } else {
        let i = n - 1;
        pair_lines(prefix, s, d, (n - 1) as nat).push(
            numbered_text(prefix, i + 1, "s="@, decimal(s[i] as int)),
        ).push(numbered_text(prefix, i + 1, "d="@, decimal(d[i] as int)))
    }
}

/// The palette lines `recol_pal<i>d=<v>` of the first `n` entries.
pub open spec fn palette_lines(pal: Seq<i8>, n: nat) -> Seq<Seq<char>>
    decreases n,
{
    if n == 0 {
        Seq::empty()
    } else {
        let i = n - 1;
        palette_lines(pal, (n - 1) as nat).push(
            numbered_text("recol_pal"@, i + 1, "d="@, decimal(pal[i] as int)),
        )
    }
}

/// `key` followed by the decimal text of `v`.
pub fn int_line_of(key: &str, v: i64) -> (s: String)
    ensures
        s@ == int_line(key@, v as int),
{
    let mut s = String::from_str(key);
    let digits = int_to_string(v);
    s.append(digits.as_str());
    s
}

/// `key`, the decimal text of `v`, then `suffix`.
pub fn wrapped_line_of(key: &str, v: i64, suffix: &str) -> (s: String)
    ensures
        s@ == wrapped_line(key@, v as int, suffix@),
{
    let mut s = int_line_of(key, v);
    s.append(suffix);
    s
}

/// `prefix`, the decimal text of `n`, `mid`, then `text`.
pub fn numbered_text_of(prefix: &str, n: i64, mid: &str, text: &str) -> (s: String)
    ensures
        s@ == numbered_text(prefix@, n as int, mid@, text@),
{
    let mut s = int_line_of(prefix, n);
    s.append(mid);
    s.append(text);
    s
}

/// `key` followed by the decimal texts of `a`, `b` and `c`, comma separated.
pub fn triple_line_of(key: &str, a: i64, b: i64, c: i64) -> (s: String)
    ensures
        s@ == triple_line(key@, a as int, b as int, c as int),
{
    let mut s = int_line_of(key, a);
    s.append(",");
    let t = int_to_string(b);
    s.append(t.as_str());
    s.append(",");
    let u = int_to_string(c);
    s.append(u.as_str());
    s
}

/// Appends the lines of pairs `0..s.len()` of a colour table to `lines`.
pub fn push_pair_lines(lines: &mut Vec<String>, prefix: &str, s: &Vec<u16>, d: &Vec<u16>)
    requires
        d@.len() >= s@.len(),
        s@.len() <= i64::MAX,
    ensures
        final(lines).deep_view() == old(lines).deep_view() + pair_lines(prefix@, s@, d@, s@.len()),
{
    let mut i: usize = 0;
    while i < s.len()
        invariant
            i <= s@.len() <= d@.len(),
            s@.len() <= i64::MAX,
            lines.deep_view() == old(lines).deep_view() + pair_lines(prefix@, s@, d@, i as nat),
        decreases s@.len() - i,
    {
        let ghost before = lines.deep_view();
        let a = numbered_text_of(prefix, i as i64 + 1, "s=", int_to_string(s[i] as i64).as_str());
        let ghost av = a@;
        lines.push(a);
        let b = numbered_text_of(prefix, i as i64 + 1, "d=", int_to_string(d[i] as i64).as_str());
        let ghost bv = b@;
        lines.push(b);
        assert(lines.deep_view() =~= before.push(av).push(bv));
        assert(lines.deep_view() =~= old(lines).deep_view() + pair_lines(
            prefix@,
            s@,
            d@,
            (i + 1) as nat,
        ));
        i += 1;
    }
}

/// Appends the palette lines of entries `0..pal.len()` to `lines`.
pub fn push_palette_lines(lines: &mut Vec<String>, pal: &Vec<i8>)
    requires
        pal@.len() <= i64::MAX,
    ensures
        final(lines).deep_view() == old(lines).deep_view() + palette_lines(pal@, pal@.len()),
{
    let mut i: usize = 0;
    while i < pal.len()
        invariant
            i <= pal@.len() <= i64::MAX,
            lines.deep_view() == old(lines).deep_view() + palette_lines(pal@, i as nat),
        decreases pal@.len() - i,
    {
        let ghost before = lines.deep_view();
        let a = numbered_text_of("recol_pal", i as i64 + 1, "d=", int_to_string(pal[i] as i64).as_str());
        let ghost av = a@;
        lines.push(a);
        assert(lines.deep_view() =~= before.push(av));
        assert(lines.deep_view() =~= old(lines).deep_view() + palette_lines(pal@, (i + 1) as nat));
        i += 1;
    }
}

/// Appends the lines of the parameters in `params`, in the order of `keys`.
pub fn push_param_lines(lines: &mut Vec<String>, params: &Params, keys: &Vec<i32>)
    requires
        forall|i: int| 0 <= i < keys@.len() ==> params@.contains_key(#[trigger] keys@[i]),
    ensures
        final(lines).deep_view() == old(lines).deep_view() + param_lines(
            params@.map_values(|v: ParamValue| v@),
            keys@,
        ),
{
    let ghost pm = params@.map_values(|v: ParamValue| v@);
    let mut i: usize = 0;
    while i < keys.len()
        invariant
            i <= keys@.len(),
            forall|j: int| 0 <= j < keys@.len() ==> params@.contains_key(#[trigger] keys@[j]),
            pm == params@.map_values(|v: ParamValue| v@),
            lines.deep_view() == old(lines).deep_view() + param_lines(pm, keys@.take(i as int)),
        decreases keys@.len() - i,
    {
        let key = keys[i];
        let value = params.get(&key).unwrap();
        let mut line = int_line_of("param=param_", key as i64);
        line.append(",");
        match value {
            ParamValue::String(s) => line.append(s.as_str()),
            ParamValue::Integer(v) => {
                let t = int_to_string(*v as i64);
                line.append(t.as_str());
            },
        }
        let ghost before = lines.deep_view();
        let ghost lv = line@;
        assert(lv == param_line(key, pm[key]));
        lines.push(line);
        assert(lines.deep_view() =~= before.push(lv));
        assert(param_lines(pm, keys@.take(i + 1)) =~= param_lines(pm, keys@.take(i as int)).push(
            param_line(key, pm[key]),
        ));
        assert(lines.deep_view() =~= old(lines).deep_view() + param_lines(pm, keys@.take(i + 1)));
        i += 1;
    }
    assert(keys@.take(keys@.len() as int) =~= keys@);
}

/// The keys of `params`, each once, in the order the map hands them out.
pub fn param_keys(params: &Params) -> (keys: Vec<i32>)
    ensures
        keys@.no_duplicates(),
        keys@.to_set() == params@.dom(),
{
    let mut keys: Vec<i32> = Vec::new();
    let ghost all = spec_keys_iter(params).remaining().unref();
    for k in it: params.keys()
        invariant
            it.seq().unref() == all,
            keys@ == all.take(it.index() as int),
    {
        keys.push(*k);
        assert(all.take(it.index() + 1) =~= keys@);
    }
    assert(keys@ =~= all);
    keys
}

} // verus!
