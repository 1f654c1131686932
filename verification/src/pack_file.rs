use vstd::prelude::*;
use vstd::hash_set::StringHashSet;
use vstd::std_specs::hash::spec_keys_iter;
use vstd::std_specs::iter::IteratorSpec;
use std::collections::HashMap;
use vstd::string::StringExecFns;
use crate::text::{chars_of, decimal, int_to_string, string_of_range};

verus! {

broadcast use vstd::std_specs::hash::group_hash_axioms;

/// An argument handed to a pack's validator.
#[derive(Clone, Copy)]
pub struct ValidatorArg;

/// Whether `c` is an ASCII decimal digit.
pub open spec fn is_digit_char(c: char) -> bool {
    '0' <= c <= '9'
}

/// The position of the first `c` in `s` at or after `i`, or `s.len()` when there is none.
pub open spec fn scan(s: Seq<char>, c: char, i: int) -> int
    decreases s.len() - i,
{
    if i < 0 || i >= s.len() {
        s.len() as int
    } else if s[i] == c {
        i
    } else {
        scan(s, c, i + 1)
    }
}

/// Every character of `s` is a decimal digit.
pub open spec fn all_digits(s: Seq<char>) -> bool {
    forall|i: int| 0 <= i < s.len() ==> is_digit_char(#[trigger] s[i])
}

/// The number that the decimal digits `s` spell (0 for no digits).
pub open spec fn digits_value(s: Seq<char>) -> nat
    decreases s.len(),
{
    if s.len() == 0 {
        0
    } else {
        digits_value(s.drop_last()) * 10 + ((s.last() as u32) - ('0' as u32)) as nat
    }
}

/// A pack line names an entry when it starts with a digit and holds an `=`.
pub open spec fn pack_line_used(line: Seq<char>) -> bool {
    &&& line.len() > 0
    &&& is_digit_char(line[0])
    &&& line.contains('=')
}

/// The text before the first `=` of a pack line: the entry's id.
pub open spec fn pack_line_id(line: Seq<char>) -> Seq<char> {
    line.take(scan(line, '=', 0))
}

/// The text between the first `=` of a pack line and the next `=` (or the end): the name.
pub open spec fn pack_line_name(line: Seq<char>) -> Seq<char> {
    let eq = scan(line, '=', 0);
    line.subrange(eq + 1, scan(line, '=', eq + 1))
}

/// A line that names an entry has a name and an id of digits below `u32::MAX`
/// (the loader panics on any other such line).
pub open spec fn pack_line_ok(line: Seq<char>) -> bool {
    pack_line_used(line) ==> {
        &&& pack_line_name(line).len() > 0
        &&& all_digits(pack_line_id(line))
        &&& digits_value(pack_line_id(line)) < u32::MAX
    }
}

/// The entries that `lines` register, later lines replacing earlier ones with the same id.
pub open spec fn loaded_pack(lines: Seq<Seq<char>>) -> Map<u32, Seq<char>>
    decreases lines.len(),
{
    if lines.len() == 0 {
        Map::empty()
    } else {
        let before = loaded_pack(lines.drop_last());
        let line = lines.last();
        if pack_line_used(line) {
            before.insert(digits_value(pack_line_id(line)) as u32, pack_line_name(line))
        } else {
            before
        }
    }
}

/// The names that `pack` holds.
pub open spec fn pack_names(pack: Map<u32, Seq<char>>) -> Set<Seq<char>> {
    Set::new(|s: Seq<char>| exists|k: u32| pack.dom().contains(k) && pack[k] == s)
}

/// `max` is one more than the largest id of `pack`, or 0 when `pack` is empty.
pub open spec fn is_pack_max(pack: Map<u32, Seq<char>>, max: u32) -> bool {
    ||| pack.dom().is_empty() && max == 0
    ||| {
        &&& max >= 1
        &&& pack.dom().contains((max - 1) as u32)
        &&& forall|k: u32| pack.dom().contains(k) ==> k < max
    }
}

/// How many of `crawled` are not in `names`.
pub open spec fn missing_count(names: Set<Seq<char>>, crawled: Seq<Seq<char>>) -> nat
    decreases crawled.len(),
{
    if crawled.len() == 0 {
        0
    } else if names.contains(crawled.last()) {
        missing_count(names, crawled.drop_last())
    } else {
        missing_count(names, crawled.drop_last()) + 1
    }
}

/// The entries after registering, under `max`, `max + 1`, ..., each of `crawled` that is
/// not in `names`.
pub open spec fn with_missing(
    pack: Map<u32, Seq<char>>,
    max: int,
    names: Set<Seq<char>>,
    crawled: Seq<Seq<char>>,
) -> Map<u32, Seq<char>>
    decreases crawled.len(),
{
    if crawled.len() == 0 {
        pack
    } else {
        let before = with_missing(pack, max, names, crawled.drop_last());
        if names.contains(crawled.last()) {
            before
        } else {
            before.insert((max + missing_count(names, crawled.drop_last())) as u32, crawled.last())
        }
    }
}

/// The ids in `ids` rise strictly.
pub open spec fn ascending(ids: Seq<u32>) -> bool {
    forall|i: int, j: int| 0 <= i < j < ids.len() ==> ids[i] < ids[j]
}

/// A line `id=name` for each id of `ids`, in that order, each ended by a newline.
pub open spec fn entry_lines(pack: Map<u32, Seq<char>>, ids: Seq<u32>) -> Seq<char>
    decreases ids.len(),
{
    if ids.len() == 0 {
        Seq::empty()
    } else {
        entry_lines(pack, ids.drop_last()) + decimal(ids.last() as int) + "="@ + pack[ids.last()]
            + "\n"@
    }
}

/// The text of a pack file: the entries by rising id, one `id=name` line each (a lone
/// newline when there are none).
pub open spec fn pack_text(pack: Map<u32, Seq<char>>, ids: Seq<u32>) -> Seq<char> {
    if ids.len() == 0 {
        "\n"@
    } else {
        entry_lines(pack, ids)
    }
}

/// `ids` lists the ids of `pack`, each once, rising.
pub open spec fn lists_ids(pack: Map<u32, Seq<char>>, ids: Seq<u32>) -> bool {
    ascending(ids) && ids.to_set() == pack.dom()
}

/// Inserts `k` into the rising list `v` where it belongs.
fn insert_sorted(v: &mut Vec<u32>, k: u32)
    requires
        ascending(old(v)@),
        !old(v)@.contains(k),
    ensures
        ascending(final(v)@),
        final(v)@.to_set() == old(v)@.to_set().insert(k),
{
    let mut i: usize = 0;
    while i < v.len() && v[i] < k
        invariant
            i <= v@.len(),
            forall|j: int| 0 <= j < i ==> v@[j] < k,
        decreases v@.len() - i,
    {
        i += 1;
    }
    let ghost before = v@;
    v.insert(i, k);
    assert(v@ == before.insert(i as int, k));
    assert forall|a: int, b: int| 0 <= a < b < v@.len() implies v@[a] < v@[b] by {
        if i < before.len() {
            assert(before[i as int] != k);
            assert(before[i as int] >= k);
        }
    }
    assert(v@.to_set() =~= before.to_set().insert(k)) by {
        assert forall|x: u32| v@.to_set().contains(x) implies before.to_set().insert(k).contains(x) by {
            let j = choose|j: int| 0 <= j < v@.len() && v@[j] == x;
            if j < i {
                assert(before[j] == x);
            } else if j > i {
                assert(before[j - 1] == x);
            }
        }
        assert forall|x: u32| before.to_set().insert(k).contains(x) implies v@.to_set().contains(x) by {
            if x == k {
                assert(v@[i as int] == k);
            } else {
                let j = choose|j: int| 0 <= j < before.len() && before[j] == x;
                if j < i {
                    assert(v@[j] == x);
                } else {
                    assert(v@[j + 1] == x);
                }
            }
        }
    }
}

/// What a pack file holds: its entries by id, the name set last refreshed, and the next free
/// id as of the last refresh.
pub struct PackModel {
    pub pack_type: Seq<char>,
    pub pack: Map<u32, Seq<char>>,
    pub names: Set<Seq<char>>,
    pub max: u32,
}

/// A table of names by numeric id, as kept in a `.pack` file.
pub struct PackFile {
    pub pack_type: String,
    pack: HashMap<u32, String>,
    names: StringHashSet,
    max: u32,
}

impl View for PackFile {
    type V = PackModel;

    closed spec fn view(&self) -> PackModel {
        PackModel {
            pack_type: self.pack_type@,
            pack: self.pack@.map_values(|v: String| v@),
            names: self.names@,
            max: self.max,
        }
    }
}

/// The position of the first `c` in `s` at or after `from`.
pub fn find_from(s: &Vec<char>, c: char, from: usize) -> (r: usize)
    requires
        from <= s@.len(),
    ensures
        r == scan(s@, c, from as int),
        from <= r <= s@.len(),
        r < s@.len() ==> s@[r as int] == c,
        forall|j: int| from <= j < r ==> s@[j] != c,
{
    let mut i = from;
    while i < s.len() && s[i] != c
        invariant
            from <= i <= s@.len(),
            scan(s@, c, from as int) == scan(s@, c, i as int),
            forall|j: int| from <= j < i ==> s@[j] != c,
        decreases s@.len() - i,
    {
        i += 1;
    }
    i
}

pub(crate) proof fn lemma_digits_prefix(s: Seq<char>, k: int)
    requires
        0 <= k <= s.len(),
        all_digits(s),
    ensures
        digits_value(s.take(k)) <= digits_value(s),
    decreases s.len(),
{
    if k < s.len() {
        assert(s.drop_last().take(k) =~= s.take(k));
        lemma_digits_prefix(s.drop_last(), k);
    } else {
        assert(s.take(k) =~= s);
    }
}

/// The id and name of a pack line, or `None` when the line names no entry.
fn parse_pack_line(line: &str) -> (r: Option<(u32, String)>)
    requires
        pack_line_ok(line@),
    ensures
        r is Some <==> pack_line_used(line@),
        r matches Some(p) ==> p.0 == digits_value(pack_line_id(line@)) && p.1@ == pack_line_name(
            line@,
        ),
{
    let cs = chars_of(line);
    let n = cs.len();
    if n == 0 || !('0' <= cs[0] && cs[0] <= '9') {
        return None;
    }
    let eq = find_from(&cs, '=', 0);
    if eq == n {
        assert(!line@.contains('='));
        return None;
    }
    assert(line@[eq as int] == '=');
    let ghost id_text = pack_line_id(line@);
    assert(id_text =~= cs@.take(eq as int));
    let mut id: u32 = 0;
    let mut i: usize = 0;
    while i < eq
        invariant
            i <= eq < n == cs@.len(),
            cs@ == line@,
            id_text == cs@.take(eq as int),
            all_digits(id_text),
            digits_value(id_text) < u32::MAX,
            id == digits_value(id_text.take(i as int)),
        decreases eq - i,
    {
        proof {
            lemma_digits_prefix(id_text, i + 1);
            assert(id_text.take(i + 1).drop_last() =~= id_text.take(i as int));
            assert(is_digit_char(id_text[i as int]));
        }
        let d = (cs[i] as u32) - ('0' as u32);
        id = id * 10 + d;
        i += 1;
    }
    assert(id_text.take(eq as int) =~= id_text);
    let end = find_from(&cs, '=', eq + 1);
    let name = string_of_range(&cs, eq + 1, end);
    Some((id, name))
}

impl PackFile {
    /// An empty pack named `pack_type`.
    pub fn new(pack_type: String) -> (p: PackFile)
        ensures
            p@.pack_type == pack_type@,
            p@.pack == Map::<u32, Seq<char>>::empty(),
            p@.names == Set::<Seq<char>>::empty(),
            p@.max == 0,
    {
        let p = PackFile { pack_type, pack: HashMap::new(), names: StringHashSet::new(), max: 0 };
        assert(p@.pack =~= Map::<u32, Seq<char>>::empty());
        p
    }

    /// Enters `name` under `id`, replacing any name it had.
    pub fn register(&mut self, id: u32, name: String)
        ensures
            final(self)@.pack == old(self)@.pack.insert(id, name@),
            final(self)@.names == old(self)@.names,
            final(self)@.max == old(self)@.max,
            final(self)@.pack_type == old(self)@.pack_type,
    {
        let ghost nv = name@;
        self.pack.insert(id, name);
        assert(self@.pack =~= old(self)@.pack.insert(id, nv));
    }

    /// Makes the name set that of the entries, and `max` one more than the largest id.
    pub fn refresh_names(&mut self)
        requires
            !old(self)@.pack.dom().contains(u32::MAX),
        ensures
            final(self)@.names == pack_names(old(self)@.pack),
            is_pack_max(old(self)@.pack, final(self)@.max),
            final(self)@.pack == old(self)@.pack,
            final(self)@.pack_type == old(self)@.pack_type,
    {
        let ghost pv = self@.pack;
        let mut names = StringHashSet::new();
        let mut max: u32 = 0;
        let ghost all = spec_keys_iter(&self.pack).remaining().unref();
        assert(all.to_set() == self.pack@.dom());
        for k in it: self.pack.keys()
            invariant
                it.seq().unref() == all,
                all.to_set() == self.pack@.dom(),
                all.no_duplicates(),
                pv == self.pack@.map_values(|v: String| v@),
                !self.pack@.dom().contains(u32::MAX),
                names@ == Set::new(
                    |s: Seq<char>| exists|i: int| 0 <= i < it.index() && pv[all[i]] == s,
                ),
                it.index() == 0 ==> max == 0,
                it.index() > 0 ==> max >= 1 && exists|i: int|
                    0 <= i < it.index() && all[i] == (max - 1) as u32,
                forall|i: int| 0 <= i < it.index() ==> all[i] < max,
        {
            let ghost idx = it.index();
            assert(all.contains(all[idx]));
            assert(self.pack@.dom().contains(*k));
            let v = self.pack.get(k).unwrap();
            names.insert(v.clone());
            assert(pv[*k] == v@);
            if *k >= max {
                max = *k + 1;
                assert(all[idx] == (max - 1) as u32);
            }
            assert(names@ =~= Set::new(
                |s: Seq<char>| exists|i: int| 0 <= i < idx + 1 && pv[all[i]] == s,
            )) by {
                assert forall|s: Seq<char>|
                    names@.contains(s) implies exists|i: int|
                        0 <= i < idx + 1 && pv[all[i]] == s by {
                    if s == v@ {
                        assert(pv[all[idx]] == s);
                    }
                }
            }
        }
        assert(names@ =~= pack_names(pv)) by {
            assert forall|s: Seq<char>| names@.contains(s) implies pack_names(pv).contains(s) by {
                let i = choose|i: int| 0 <= i < all.len() && pv[all[i]] == s;
                assert(all.contains(all[i]));
            }
            assert forall|s: Seq<char>| pack_names(pv).contains(s) implies names@.contains(s) by {
                let k = choose|k: u32| pv.dom().contains(k) && pv[k] == s;
                assert(all.to_set().contains(k));
                let i = choose|i: int| 0 <= i < all.len() && all[i] == k;
                assert(pv[all[i]] == s);
            }
        }
        assert(is_pack_max(pv, max)) by {
            if max > 0 {
                let i = choose|i: int| 0 <= i < all.len() && all[i] == (max - 1) as u32;
                assert(all.contains(all[i]));
                assert forall|k: u32| pv.dom().contains(k) implies k < max by {
                    assert(all.to_set().contains(k));
                    let j = choose|j: int| 0 <= j < all.len() && all[j] == k;
                }
            } else {
                assert(pv.dom() =~= Set::<u32>::empty()) by {
                    assert forall|k: u32| !pv.dom().contains(k) by {
                        if pv.dom().contains(k) {
                            assert(all.to_set().contains(k));
                        }
                    }
                }
            }
        }
        self.names = names;
        self.max = max;
    }

    /// Replaces the entries by those that `lines` hold, then refreshes the names; with no
    /// lines (the file is missing) the entries are emptied and nothing else changes.
    pub fn load(&mut self, lines: Option<Vec<String>>)
        requires
            lines matches Some(ls) ==> forall|i: int|
                0 <= i < ls.len() ==> pack_line_ok(#[trigger] ls[i]@),
        ensures
            final(self)@.pack_type == old(self)@.pack_type,
            lines is None ==> {
                &&& final(self)@.pack == Map::<u32, Seq<char>>::empty()
                &&& final(self)@.names == old(self)@.names
                &&& final(self)@.max == old(self)@.max
            },
            lines matches Some(ls) ==> {
                &&& final(self)@.pack == loaded_pack(ls.deep_view())
                &&& final(self)@.names == pack_names(loaded_pack(ls.deep_view()))
                &&& is_pack_max(loaded_pack(ls.deep_view()), final(self)@.max)
            },
    {
        self.pack = HashMap::new();
        assert(self@.pack =~= Map::<u32, Seq<char>>::empty());
        match lines {
            None => {},
            Some(ls) => {
                let ghost dv = ls.deep_view();
                let mut i: usize = 0;
                while i < ls.len()
                    invariant
                        i <= ls@.len(),
                        dv == ls.deep_view(),
                        forall|j: int| 0 <= j < ls.len() ==> pack_line_ok(#[trigger] ls[j]@),
                        self@.pack == loaded_pack(dv.take(i as int)),
                        forall|k: u32| self@.pack.dom().contains(k) ==> k < u32::MAX,
                        self@.pack_type == old(self)@.pack_type,
                    decreases ls@.len() - i,
                {
                    assert(dv.take(i + 1).drop_last() =~= dv.take(i as int));
                    assert(dv[i as int] == ls[i as int]@);
                    match parse_pack_line(ls[i].as_str()) {
                        Some((id, name)) => {
                            self.register(id, name);
                        },
                        None => {},
                    }
                    i += 1;
                }
                assert(dv.take(ls@.len() as int) =~= dv);
                self.refresh_names();
            },
        }
    }

    /// The name under `id`, or the empty string when there is none.
    pub fn get_by_id(&self, id: u32) -> (r: String)
        ensures
            self@.pack.dom().contains(id) ==> r@ == self@.pack[id],
            !self@.pack.dom().contains(id) ==> r@ == Seq::<char>::empty(),
    {
        match self.pack.get(&id) {
            Some(v) => v.clone(),
            None => String::new(),
        }
    }

    /// An id under which `name` is entered, or -1 when the name set lacks it or no entry
    /// has it. The id is given as an `i32`, as the bits of the `u32`.
    pub fn get_by_name(&self, name: &str) -> (r: i32)
        ensures
            !self@.names.contains(name@) ==> r == -1,
            self@.names.contains(name@) && !pack_names(self@.pack).contains(name@) ==> r == -1,
            self@.names.contains(name@) && pack_names(self@.pack).contains(name@) ==> exists|k: u32|
                self@.pack.dom().contains(k) && self@.pack[k] == name@ && r == k as i32,
    {
        if !self.names.contains(name) {
            return -1;
        }
        let target = name.to_owned();
        let ghost pv = self@.pack;
        let ghost all = spec_keys_iter(&self.pack).remaining().unref();
        for k in it: self.pack.keys()
            invariant
                it.seq().unref() == all,
                all.to_set() == self.pack@.dom(),
                pv == self.pack@.map_values(|v: String| v@),
                target@ == name@,
                self@.names.contains(name@),
                forall|i: int| 0 <= i < it.index() ==> pv[all[i]] != name@,
        {
            let ghost idx = it.index();
            assert(all.contains(all[idx]));
            let v = self.pack.get(k).unwrap();
            assert(pv[*k] == v@);
            if *v == target {
                return *k as i32;
            }
        }
        assert(!pack_names(pv).contains(name@)) by {
            if pack_names(pv).contains(name@) {
                let k = choose|k: u32| pv.dom().contains(k) && pv[k] == name@;
                assert(all.to_set().contains(k));
                let i = choose|i: int| 0 <= i < all.len() && all[i] == k;
            }
        }
        -1
    }

    /// The next free id, as of the last refresh.
    pub fn next_id(&self) -> (r: u32)
        ensures
            r == self@.max,
    {
        self.max
    }

    /// The text that saving writes: the entries by rising id, one `id=name` line each.
    pub fn save_text(&self) -> (text: String)
        ensures
            exists|ids: Seq<u32>| lists_ids(self@.pack, ids) && text@ == pack_text(self@.pack, ids),
    {
        let ghost pv = self@.pack;
        let mut ids: Vec<u32> = Vec::new();
        let ghost all = spec_keys_iter(&self.pack).remaining().unref();
        for k in it: self.pack.keys()
            invariant
                it.seq().unref() == all,
                all.no_duplicates(),
                all.to_set() == self.pack@.dom(),
                ascending(ids@),
                ids@.to_set() == all.take(it.index() as int).to_set(),
        {
            let ghost idx = it.index();
            assert(!ids@.contains(*k)) by {
                if ids@.contains(*k) {
                    assert(ids@.to_set().contains(*k));
                    let j = choose|j: int| 0 <= j < idx && all.take(idx)[j] == *k;
                    assert(all[j] == all[idx]);
                }
            }
            insert_sorted(&mut ids, *k);
            assert(all.take(idx + 1).to_set() =~= all.take(idx).to_set().insert(*k)) by {
                assert(all.take(idx + 1) =~= all.take(idx).push(*k));
                all.take(idx).lemma_push_to_set_commute(*k);
            }
        }
        assert(all.take(all.len() as int) =~= all);
        assert(ids@.to_set() == pv.dom());
        assert(lists_ids(pv, ids@));
        let mut text = String::new();
        if ids.len() == 0 {
            text.append("\n");
            assert(text@ == pack_text(pv, ids@));
            return text;
        }
        let mut i: usize = 0;
        while i < ids.len()
            invariant
                i <= ids@.len(),
                lists_ids(pv, ids@),
                pv == self@.pack,
                text@ == entry_lines(pv, ids@.take(i as int)),
            decreases ids@.len() - i,
        {
            assert(ids@.take(i + 1).drop_last() =~= ids@.take(i as int));
            let id = ids[i];
            assert(ids@.to_set().contains(id));
            let number = int_to_string(id as i64);
            text.append(number.as_str());
            text.append("=");
            let name = self.get_by_id(id);
            text.append(name.as_str());
            text.append("\n");
            i += 1;
        }
        assert(ids@.take(ids@.len() as int) =~= ids@);
        assert(text@ == pack_text(pv, ids@));
        text
    }

    /// Registers, under fresh ids counting up from `max`, each crawled name that the name
    /// set lacks, then refreshes the names.
    pub fn regenerate(&mut self, crawled: &Vec<String>)
        requires
            !old(self)@.pack.dom().contains(u32::MAX),
            old(self)@.max + missing_count(old(self)@.names, crawled.deep_view()) < u32::MAX,
        ensures
            final(self)@.pack == with_missing(
                old(self)@.pack,
                old(self)@.max as int,
                old(self)@.names,
                crawled.deep_view(),
            ),
            final(self)@.names == pack_names(final(self)@.pack),
            is_pack_max(final(self)@.pack, final(self)@.max),
            final(self)@.pack_type == old(self)@.pack_type,
    {
        let ghost names0 = self@.names;
        let ghost max0 = self@.max as int;
        let ghost pack0 = self@.pack;
        let ghost dv = crawled.deep_view();
        let mut i: usize = 0;
        while i < crawled.len()
            invariant
                i <= crawled@.len(),
                dv == crawled.deep_view(),
                self@.names == names0,
                self@.pack_type == old(self)@.pack_type,
                !pack0.dom().contains(u32::MAX),
                max0 + missing_count(names0, dv) < u32::MAX,
                self@.max == max0 + missing_count(names0, dv.take(i as int)),
                self@.pack == with_missing(pack0, max0, names0, dv.take(i as int)),
                !self@.pack.dom().contains(u32::MAX),
            decreases crawled@.len() - i,
        {
            assert(dv.take(i + 1).drop_last() =~= dv.take(i as int));
            assert(dv[i as int] == crawled[i as int]@);
            proof {
                lemma_missing_prefix(names0, dv, i + 1);
            }
            let name = &crawled[i];
            if !self.names.contains(name.as_str()) {
                let max = self.max;
                self.register(max, name.clone());
                self.max = self.max + 1;
            }
            i += 1;
        }
        assert(dv.take(crawled@.len() as int) =~= dv);
        self.refresh_names();
    }
}

proof fn lemma_missing_prefix(names: Set<Seq<char>>, s: Seq<Seq<char>>, k: int)
    requires
        0 <= k <= s.len(),
    ensures
        missing_count(names, s.take(k)) <= missing_count(names, s),
    decreases s.len(),
{
    if k < s.len() {
        assert(s.drop_last().take(k) =~= s.take(k));
        lemma_missing_prefix(names, s.drop_last(), k);
    } else {
        assert(s.take(k) =~= s);
    }
}

/// What `register` enters is what a lookup by that id finds.
pub proof fn law_register_then_lookup(m: PackModel, id: u32, name: Seq<char>)
    ensures
        m.pack.insert(id, name).dom().contains(id),
        m.pack.insert(id, name)[id] == name,
        forall|k: u32| k != id && m.pack.dom().contains(k) ==> m.pack.insert(id, name)[k] == m.pack[k],
{
}

/// After a refresh every entered name is in the name set, so a lookup by name finds an id.
pub proof fn law_refreshed_names_found(pack: Map<u32, Seq<char>>, k: u32)
    requires
        pack.dom().contains(k),
    ensures
        pack_names(pack).contains(pack[k]),
{
}

/// Loading: an entry comes from the last line that names its id.
pub proof fn law_load_last_line_wins(lines: Seq<Seq<char>>, i: int)
    requires
        0 <= i < lines.len(),
        pack_line_used(lines[i]),
        forall|j: int|
            i < j < lines.len() && pack_line_used(#[trigger] lines[j]) ==> digits_value(
                pack_line_id(lines[j]),
            ) as u32 != digits_value(pack_line_id(lines[i])) as u32,
    ensures
        loaded_pack(lines).dom().contains(digits_value(pack_line_id(lines[i])) as u32),
        loaded_pack(lines)[digits_value(pack_line_id(lines[i])) as u32] == pack_line_name(lines[i]),
    decreases lines.len(),
{
    if i < lines.len() - 1 {
        let init = lines.drop_last();
        assert forall|j: int|
            i < j < init.len() && pack_line_used(#[trigger] init[j]) implies digits_value(
                pack_line_id(init[j]),
            ) as u32 != digits_value(pack_line_id(init[i])) as u32 by {
            assert(init[j] == lines[j]);
        }
        assert(init[i] == lines[i]);
        law_load_last_line_wins(init, i);
        assert(lines.last() == lines[lines.len() - 1]);
    }
}

/// Regenerating a refreshed pack keeps every entry it had and leaves every crawled name
/// entered under some id.
pub proof fn law_regenerate_covers_crawled(
    pack: Map<u32, Seq<char>>,
    max: u32,
    crawled: Seq<Seq<char>>,
)
    requires
        is_pack_max(pack, max),
        max + missing_count(pack_names(pack), crawled) <= u32::MAX,
    ensures
        forall|k: u32|
            #[trigger] pack.dom().contains(k) ==> with_missing(pack, max as int, pack_names(pack), crawled).dom().contains(k)
                && with_missing(pack, max as int, pack_names(pack), crawled)[k] == pack[k],
        forall|j: int|
            0 <= j < crawled.len() ==> pack_names(
                with_missing(pack, max as int, pack_names(pack), crawled),
            ).contains(#[trigger] crawled[j]),
{
    lemma_with_missing(pack, max, pack_names(pack), crawled);
    let r = with_missing(pack, max as int, pack_names(pack), crawled);
    assert forall|j: int| 0 <= j < crawled.len() implies pack_names(r).contains(
        #[trigger] crawled[j],
    ) by {
        if pack_names(pack).contains(crawled[j]) {
            let k = choose|k: u32| pack.dom().contains(k) && pack[k] == crawled[j];
            assert(r.dom().contains(k) && r[k] == crawled[j]);
        } else {
            let k = choose|k: u32| r.dom().contains(k) && r[k] == crawled[j];
        }
    }
}

proof fn lemma_with_missing(
    pack: Map<u32, Seq<char>>,
    max: u32,
    names: Set<Seq<char>>,
    crawled: Seq<Seq<char>>,
)
    requires
        is_pack_max(pack, max),
        max + missing_count(names, crawled) <= u32::MAX,
    ensures
        forall|k: u32|
            #[trigger] pack.dom().contains(k) ==> with_missing(pack, max as int, names, crawled).dom().contains(k)
                && with_missing(pack, max as int, names, crawled)[k] == pack[k],
        forall|k: u32|
            with_missing(pack, max as int, names, crawled).dom().contains(k) ==> pack.dom().contains(k)
                || (max <= k < max + missing_count(names, crawled)),
        forall|j: int|
            0 <= j < crawled.len() && !names.contains(crawled[j]) ==> exists|k: u32|
                with_missing(pack, max as int, names, crawled).dom().contains(k) && with_missing(
                    pack,
                    max as int,
                    names,
                    crawled,
                )[k] == #[trigger] crawled[j],
    decreases crawled.len(),
{
    if crawled.len() > 0 {
        let init = crawled.drop_last();
        lemma_with_missing(pack, max, names, init);
        let before = with_missing(pack, max as int, names, init);
        let r = with_missing(pack, max as int, names, crawled);
        if !names.contains(crawled.last()) {
            let nk = (max + missing_count(names, init)) as u32;
            assert(!before.dom().contains(nk)) by {
                if before.dom().contains(nk) {
                    if pack.dom().contains(nk) {
                        assert(nk < max);
                    }
                }
            }
            assert(r == before.insert(nk, crawled.last()));
            assert forall|k: u32| pack.dom().contains(k) implies r.dom().contains(k) && r[k] == pack[k] by {
                assert(k < max);
                assert(before.dom().contains(k) && before[k] == pack[k]);
            }
            assert forall|j: int|
                0 <= j < crawled.len() && !names.contains(crawled[j]) implies exists|k: u32|
                    r.dom().contains(k) && r[k] == #[trigger] crawled[j] by {
                if j == crawled.len() - 1 {
                    assert(r.dom().contains(nk) && r[nk] == crawled[j]);
                } else {
                    assert(init[j] == crawled[j]);
                    let k = choose|k: u32| before.dom().contains(k) && before[k] == init[j];
                    assert(k != nk);
                    assert(r.dom().contains(k) && r[k] == crawled[j]);
                }
            }
        } else {
            assert(r == before);
            assert forall|k: u32| pack.dom().contains(k) implies r.dom().contains(k) && r[k] == pack[k] by {
                assert(before.dom().contains(k) && before[k] == pack[k]);
            }
            assert forall|j: int|
                0 <= j < crawled.len() && !names.contains(crawled[j]) implies exists|k: u32|
                    r.dom().contains(k) && r[k] == #[trigger] crawled[j] by {
                assert(j != crawled.len() - 1);
                assert(init[j] == crawled[j]);
            }
        }
    }
}

} // verus!
