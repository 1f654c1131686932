use vstd::prelude::*;
use crate::pack_file::{all_digits, digits_value, find_from, is_digit_char, scan};
use crate::text::{chars_of, push_char, string_of_range};

verus! {

/// `s` without its carriage returns.
pub open spec fn without_cr(s: Seq<char>) -> Seq<char>
    decreases s.len(),
{
    if s.len() == 0 {
        s
    } else if s.last() == '\r' {
        without_cr(s.drop_last())
    } else {
        without_cr(s.drop_last()).push(s.last())
    }
}

/// The pieces of `s` between the separators `sep`, as `str::split` gives them: one more
/// piece than there are separators, empty pieces included.
pub open spec fn split_on(s: Seq<char>, sep: char) -> Seq<Seq<char>>
    decreases s.len(),
{
    if s.len() == 0 {
        seq![Seq::<char>::empty()]
    } else {
        let before = split_on(s.drop_last(), sep);
        if s.last() == sep {
            before.push(Seq::<char>::empty())
        } else {
            before.update(before.len() - 1, before.last().push(s.last()))
        }
    }
}

/// The lines of a text: its pieces between newlines once carriage returns are gone.
pub open spec fn text_lines(text: Seq<char>) -> Seq<Seq<char>> {
    split_on(without_cr(text), '\n')
}

/// What `str::parse::<i32>` gives for `s`: an optional sign and then at least one decimal
/// digit, with the value in range.
pub open spec fn parse_i32(s: Seq<char>) -> Option<i32> {
    let negative = s.len() > 0 && s[0] == '-';
    let signed = s.len() > 0 && (s[0] == '-' || s[0] == '+');
    let body = if signed { s.skip(1) } else { s };
    if body.len() == 0 || !all_digits(body) {
        None
    } else if negative {
        if digits_value(body) <= 0x8000_0000 {
            Some((-(digits_value(body) as int)) as i32)
        } else {
            None
        }
    } else if digits_value(body) <= 0x7fff_ffff {
        Some(digits_value(body) as i32)
    } else {
        None
    }
}

/// What `str::parse::<usize>` gives for `s`: an optional `+` and then at least one decimal
/// digit, with the value in range.
pub open spec fn parse_usize(s: Seq<char>) -> Option<usize> {
    let body = if s.len() > 0 && s[0] == '+' { s.skip(1) } else { s };
    if body.len() == 0 || !all_digits(body) || digits_value(body) > usize::MAX {
        None
    } else {
        Some(digits_value(body) as usize)
    }
}

/// The numbers of an order file: each non-empty line that parses as an `i32`, in order.
pub open spec fn order_values(lines: Seq<Seq<char>>) -> Seq<i32>
    decreases lines.len(),
{
    if lines.len() == 0 {
        Seq::empty()
    } else {
        let before = order_values(lines.drop_last());
        match parse_i32(lines.last()) {
            Some(v) => if lines.last().len() > 0 { before.push(v) } else { before },
            None => before,
        }
    }
}

/// The id that a name-list line gives: the text before its first `=`, parsed as a `usize`;
/// `None` when the line has no `=` or that text is no number.
pub open spec fn list_line_id(line: Seq<char>) -> Option<usize> {
    if line.len() > 0 && line.contains('=') {
        parse_usize(line.take(scan(line, '=', 0)))
    } else {
        None
    }
}

/// The name that a name-list line gives: what lies between its first `=` and the next.
pub open spec fn list_line_name(line: Seq<char>) -> Seq<char> {
    let eq = scan(line, '=', 0);
    line.subrange(eq + 1, scan(line, '=', eq + 1))
}

/// `names` grown with empty names until index `id` exists.
pub open spec fn grown(names: Seq<Seq<char>>, id: int) -> Seq<Seq<char>> {
    if names.len() > id {
        names
    } else {
        names + Seq::new((id + 1 - names.len()) as nat, |i: int| Seq::<char>::empty())
    }
}

/// The names of a name-list file by id: each line with an id puts its name at that index,
/// later lines replacing earlier ones; indices no line names hold the empty name.
pub open spec fn listed_names(lines: Seq<Seq<char>>) -> Seq<Seq<char>>
    decreases lines.len(),
{
    if lines.len() == 0 {
        Seq::empty()
    } else {
        let before = listed_names(lines.drop_last());
        match list_line_id(lines.last()) {
            Some(id) => grown(before, id as int).update(id as int, list_line_name(lines.last())),
            None => before,
        }
    }
}

/// The id that a line gives, if any, is below `u32::MAX`: a list long enough to hold a
/// larger id could not be allocated.
pub open spec fn list_id_fits(line: Seq<char>) -> bool {
    list_line_id(line) matches Some(id) ==> id < 0xffff_ffff
}

/// Every id that the lines give fits (see `list_id_fits`).
pub open spec fn list_ids_fit(lines: Seq<Seq<char>>) -> bool {
    forall|i: int| 0 <= i < lines.len() ==> list_id_fits(#[trigger] lines[i])
}

/// The characters of `s` without carriage returns.
pub fn strip_carriage_returns(s: &str) -> (r: String)
    ensures
        r@ == without_cr(s@),
{
    let cs = chars_of(s);
    let mut r = String::new();
    let mut i: usize = 0;
    while i < cs.len()
        invariant
            i <= cs@.len(),
            cs@ == s@,
            r@ == without_cr(cs@.take(i as int)),
        decreases cs@.len() - i,
    {
        proof {
            assert(cs@.take(i + 1).drop_last() =~= cs@.take(i as int));
        }
        if cs[i] != '\r' {
            push_char(&mut r, cs[i]);
        }
        i += 1;
    }
    assert(cs@.take(cs@.len() as int) =~= cs@);
    r
}

/// The pieces of `s` between the separators `sep`.
pub fn split_text(s: &str, sep: char) -> (r: Vec<String>)
    ensures
        r.deep_view() == split_on(s@, sep),
{
    let cs = chars_of(s);
    let mut r: Vec<String> = Vec::new();
    let mut start: usize = 0;
    let mut i: usize = 0;
    assert(cs@.take(0) =~= Seq::<char>::empty());
    assert(r.deep_view() + seq![cs@.subrange(0, 0)] =~= seq![Seq::<char>::empty()]);
    while i < cs.len()
        invariant
            start <= i <= cs@.len(),
            cs@ == s@,
            r.deep_view() + seq![cs@.subrange(start as int, i as int)] == split_on(
                cs@.take(i as int),
                sep,
            ),
        decreases cs@.len() - i,
    {
        let ghost before = split_on(cs@.take(i as int), sep);
        assert(cs@.take(i + 1).drop_last() =~= cs@.take(i as int));
        assert(cs@.take(i + 1).last() == cs@[i as int]);
        if cs[i] == sep {
            let piece = string_of_range(&cs, start, i);
            let ghost old_dv = r.deep_view();
            assert(before == old_dv + seq![cs@.subrange(start as int, i as int)]);
            r.push(piece);
            assert(r.deep_view() =~= old_dv.push(cs@.subrange(start as int, i as int)));
            start = i + 1;
            assert(cs@.subrange(start as int, i + 1) =~= Seq::<char>::empty());
            assert(r.deep_view() + seq![cs@.subrange(start as int, i + 1)] =~= before.push(
                Seq::<char>::empty(),
            ));
        } else {
            assert(cs@.subrange(start as int, i + 1) =~= cs@.subrange(start as int, i as int).push(
                cs@[i as int],
            ));
            assert(r.deep_view() + seq![cs@.subrange(start as int, i + 1)] =~= before.update(
                before.len() - 1,
                before.last().push(cs@[i as int]),
            ));
        }
        i += 1;
    }
    let last = string_of_range(&cs, start, cs.len());
    let ghost old_dv = r.deep_view();
    r.push(last);
    assert(r.deep_view() =~= old_dv.push(cs@.subrange(start as int, cs@.len() as int)));
    assert(cs@.take(cs@.len() as int) =~= cs@);
    assert(r.deep_view() =~= split_on(s@, sep));
    r
}

/// The lines of a text file's contents.
pub fn load_file(text: &str) -> (lines: Vec<String>)
    ensures
        lines.deep_view() == text_lines(text@),
{
    let clean = strip_carriage_returns(text);
    split_text(clean.as_str(), '\n')
}

/// The value of the decimal digits `cs[from..to]`, or `None` when it exceeds `limit`.
fn digits_up_to(cs: &Vec<char>, from: usize, to: usize, limit: u64) -> (r: Option<u64>)
    requires
        from <= to <= cs@.len(),
        all_digits(cs@.subrange(from as int, to as int)),
        limit < u64::MAX / 10,
    ensures
        r matches Some(v) ==> v == digits_value(cs@.subrange(from as int, to as int)) && v <= limit,
        r is None ==> digits_value(cs@.subrange(from as int, to as int)) > limit,
{
    let ghost body = cs@.subrange(from as int, to as int);
    let mut acc: u64 = 0;
    let mut i: usize = from;
    while i < to
        invariant
            from <= i <= to <= cs@.len(),
            body == cs@.subrange(from as int, to as int),
            all_digits(body),
            limit < u64::MAX / 10,
            acc == digits_value(body.take(i - from)),
            acc <= limit,
        decreases to - i,
    {
        proof {
            assert(body.take(i - from + 1).drop_last() =~= body.take(i - from));
            assert(is_digit_char(body[i - from]));
            assert(body[i - from] == cs@[i as int]);
        }
        let d = (cs[i] as u32 - '0' as u32) as u64;
        acc = acc * 10 + d;
        if acc > limit {
            proof {
                crate::pack_file::lemma_digits_prefix(body, i - from + 1);
            }
            return None;
        }
        i += 1;
    }
    assert(body.take(to - from) =~= body);
    Some(acc)
}

fn all_digits_in(cs: &Vec<char>, from: usize, to: usize) -> (r: bool)
    requires
        from <= to <= cs@.len(),
    ensures
        r == all_digits(cs@.subrange(from as int, to as int)),
{
    let mut i: usize = from;
    while i < to
        invariant
            from <= i <= to <= cs@.len(),
            forall|j: int| from <= j < i ==> is_digit_char(cs@[j]),
        decreases to - i,
    {
        if !('0' <= cs[i] && cs[i] <= '9') {
            assert(!is_digit_char(cs@.subrange(from as int, to as int)[i - from]));
            return false;
        }
        i += 1;
    }
    assert forall|j: int| 0 <= j < to - from implies is_digit_char(
        #[trigger] cs@.subrange(from as int, to as int)[j],
    ) by {
        assert(is_digit_char(cs@[from + j]));
    }
    true
}

/// `str::parse::<i32>` on `s`, where `s` is the characters `cs[from..to]`.
fn parse_i32_range(cs: &Vec<char>, from: usize, to: usize) -> (r: Option<i32>)
    requires
        from <= to <= cs@.len(),
    ensures
        r == parse_i32(cs@.subrange(from as int, to as int)),
{
    let ghost s = cs@.subrange(from as int, to as int);
    let negative = from < to && cs[from] == '-';
    let signed = from < to && (cs[from] == '-' || cs[from] == '+');
    let start = if signed { from + 1 } else { from };
    let ghost body = if signed { s.skip(1) } else { s };
    assert(body =~= cs@.subrange(start as int, to as int));
    if start == to || !all_digits_in(cs, start, to) {
        return None;
    }
    match digits_up_to(cs, start, to, 0x8000_0000) {
        None => None,
        Some(v) => {
            if negative {
                Some((0 - (v as i64)) as i32)
            } else if v <= 0x7fff_ffff {
                Some(v as i32)
            } else {
                None
            }
        },
    }
}

/// The numbers of an order file's contents: each non-empty line that parses as an `i32`.
pub fn parse_order(text: &str) -> (order: Vec<i32>)
    ensures
        order@ == order_values(text_lines(text@)),
{
    let lines = load_file(text);
    let ghost dv = lines.deep_view();
    let mut order: Vec<i32> = Vec::new();
    let mut i: usize = 0;
    while i < lines.len()
        invariant
            i <= lines@.len(),
            dv == lines.deep_view(),
            dv == text_lines(text@),
            order@ == order_values(dv.take(i as int)),
        decreases lines@.len() - i,
    {
        assert(dv.take(i + 1).drop_last() =~= dv.take(i as int));
        assert(dv[i as int] == lines[i as int]@);
        let cs = chars_of(lines[i].as_str());
        if cs.len() > 0 {
            assert(cs@.subrange(0, cs@.len() as int) =~= cs@);
            match parse_i32_range(&cs, 0, cs.len()) {
                Some(v) => order.push(v),
                None => {},
            }
        }
        i += 1;
    }
    assert(dv.take(lines@.len() as int) =~= dv);
    order
}

/// The id and name of a name-list line, if it gives an id.
fn parse_list_line(line: &str) -> (r: Option<(usize, String)>)
    requires
        list_line_id(line@) matches Some(id) ==> id < 0xffff_ffff,
    ensures
        r matches Some(p) ==> list_line_id(line@) == Some(p.0) && p.1@ == list_line_name(line@),
        r is None ==> list_line_id(line@) is None,
{
    let cs = chars_of(line);
    if cs.len() == 0 {
        return None;
    }
    let eq = find_from(&cs, '=', 0);
    if eq == cs.len() {
        assert(!line@.contains('='));
        return None;
    }
    assert(line@[eq as int] == '=');
    let ghost id_text = line@.take(eq as int);
    assert(id_text =~= cs@.subrange(0, eq as int));
    let start: usize = if eq > 0 && cs[0] == '+' { 1 } else { 0 };
    let ghost body = if id_text.len() > 0 && id_text[0] == '+' { id_text.skip(1) } else { id_text };
    assert(body =~= cs@.subrange(start as int, eq as int));
    if start == eq || !all_digits_in(&cs, start, eq) {
        return None;
    }
    let id: usize = match digits_up_to(&cs, start, eq, 0xffff_fffe) {
        None => {
            return None;
        },
        Some(v) => v as usize,
    };
    let end = find_from(&cs, '=', eq + 1);
    let name = string_of_range(&cs, eq + 1, end);
    Some((id, name))
}

/// The names of a name-list file's contents by id; indices that no line names hold the
/// empty name.
pub fn parse_pack(text: &str) -> (names: Vec<String>)
    requires
        list_ids_fit(text_lines(text@)),
    ensures
        names.deep_view() == listed_names(text_lines(text@)),
{
    let lines = load_file(text);
    let ghost dv = lines.deep_view();
    let mut names: Vec<String> = Vec::new();
    let mut i: usize = 0;
    while i < lines.len()
        invariant
            i <= lines@.len(),
            dv == lines.deep_view(),
            dv == text_lines(text@),
            list_ids_fit(dv),
            names.deep_view() == listed_names(dv.take(i as int)),
        decreases lines@.len() - i,
    {
        assert(dv.take(i + 1).drop_last() =~= dv.take(i as int));
        assert(dv[i as int] == lines[i as int]@);
        assert(list_id_fits(dv[i as int]));
        match parse_list_line(lines[i].as_str()) {
            Some((id, name)) => {
                let ghost before = names.deep_view();
                while names.len() <= id
                    invariant
                        before.len() <= names@.len(),
                        names@.len() <= before.len() || names@.len() <= id + 1,
                        id < 0xffff_ffff,
                        names.deep_view().take(before.len() as int) == before,
                        forall|j: int|
                            before.len() <= j < names@.len() ==> names.deep_view()[j]
                                == Seq::<char>::empty(),
                    decreases id + 1 - names@.len(),
                {
                    let ghost old_dv = names.deep_view();
                    names.push(String::new());
                    assert(names.deep_view() =~= old_dv.push(Seq::<char>::empty()));
                    assert(names.deep_view().take(before.len() as int) =~= before);
                }
                assert(names.deep_view() =~= grown(before, id as int));
                names.set(id, name);
            },
            None => {},
        }
        i += 1;
    }
    assert(dv.take(lines@.len() as int) =~= dv);
    names
}

proof fn lemma_without_cr(s: Seq<char>)
    ensures
        forall|k: int| 0 <= k < without_cr(s).len() ==> #[trigger] without_cr(s)[k] != '\r',
    decreases s.len(),
{
    if s.len() > 0 {
        lemma_without_cr(s.drop_last());
        let prev = without_cr(s.drop_last());
        assert forall|k: int| 0 <= k < without_cr(s).len() implies #[trigger] without_cr(s)[k] != '\r' by {
            if k < prev.len() {
                assert(without_cr(s)[k] == prev[k]);
            }
        }
    }
}

pub(crate) proof fn lemma_split_pieces(s: Seq<char>, sep: char)
    ensures
        split_on(s, sep).len() >= 1,
        forall|i: int, k: int|
            0 <= i < split_on(s, sep).len() && 0 <= k < split_on(s, sep)[i].len() ==> {
                &&& #[trigger] split_on(s, sep)[i][k] != sep
                &&& s.contains(split_on(s, sep)[i][k])
            },
    decreases s.len(),
{
    if s.len() > 0 {
        let init = s.drop_last();
        lemma_split_pieces(init, sep);
        let before = split_on(init, sep);
        assert forall|i: int, k: int|
            0 <= i < split_on(s, sep).len() && 0 <= k < split_on(s, sep)[i].len() implies {
                &&& #[trigger] split_on(s, sep)[i][k] != sep
                &&& s.contains(split_on(s, sep)[i][k])
            } by {
            let piece = split_on(s, sep)[i];
            let c = piece[k];
            if s.last() == sep {
                assert(split_on(s, sep) == before.push(Seq::<char>::empty()));
                assert(i < before.len());
                assert(piece == before[i]);
            } else {
                assert(split_on(s, sep) == before.update(before.len() - 1, before.last().push(s.last())));
                if i == before.len() - 1 && k == before.last().len() {
                    assert(c == s.last());
                    assert(s[s.len() - 1] == s.last());
                    assert(c != sep);
                } else if i == before.len() - 1 {
                    assert(c == before[i][k]);
                } else {
                    assert(piece == before[i]);
                }
            }
            if !(s.last() != sep && i == before.len() - 1 && k == before.last().len()) {
                assert(c == before[i][k]);
                assert(init.contains(c));
                let w = choose|w: int| 0 <= w < init.len() && init[w] == c;
                assert(s[w] == init[w]);
            }
        }
    }
}

/// The lines of a text hold neither carriage returns nor newlines.
pub proof fn law_lines_are_clean(text: Seq<char>)
    ensures
        forall|i: int, k: int|
            0 <= i < text_lines(text).len() && 0 <= k < text_lines(text)[i].len() ==> {
                &&& #[trigger] text_lines(text)[i][k] != '\r'
                &&& text_lines(text)[i][k] != '\n'
            },
{
    lemma_without_cr(text);
    lemma_split_pieces(without_cr(text), '\n');
    assert forall|i: int, k: int|
        0 <= i < text_lines(text).len() && 0 <= k < text_lines(text)[i].len() implies {
            &&& #[trigger] text_lines(text)[i][k] != '\r'
            &&& text_lines(text)[i][k] != '\n'
        } by {
        let c = text_lines(text)[i][k];
        let w = choose|w: int| 0 <= w < without_cr(text).len() && without_cr(text)[w] == c;
    }
}

} // verus!
