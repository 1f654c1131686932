use vstd::prelude::*;
use crate::namemap::{split_on, text_lines, without_cr};
use crate::pack_file::{
    all_digits, ascending, digits_value, entry_lines, is_digit_char, lists_ids, loaded_pack,
    pack_line_id, pack_line_name, pack_line_ok, pack_line_used, pack_text, scan,
};
use crate::text::{decimal, digits};

verus! {

/// A name that a pack file can hold: not empty, with no `=`, newline or carriage return.
pub open spec fn name_storable(name: Seq<char>) -> bool {
    &&& name.len() > 0
    &&& !name.contains('=')
    &&& !name.contains('\n')
    &&& !name.contains('\r')
}

/// Every id of `pack` is below `u32::MAX` and every name can be stored.
pub open spec fn storable_pack(pack: Map<u32, Seq<char>>) -> bool {
    forall|k: u32| pack.dom().contains(k) ==> k < u32::MAX && name_storable(#[trigger] pack[k])
}

/// The line that saving writes for the entry `id`.
pub open spec fn entry_line(pack: Map<u32, Seq<char>>, id: u32) -> Seq<char> {
    decimal(id as int) + "="@ + pack[id]
}

/// The lines that saving writes for `ids`, in order.
pub open spec fn entry_line_seq(pack: Map<u32, Seq<char>>, ids: Seq<u32>) -> Seq<Seq<char>> {
    ids.map_values(|id: u32| entry_line(pack, id))
}

proof fn lemma_digits(n: nat)
    ensures
        digits(n).len() > 0,
        all_digits(digits(n)),
        digits_value(digits(n)) == n,
    decreases n,
{
    if n >= 10 {
        lemma_digits(n / 10);
        let d = digits(n / 10);
        let c = (((n % 10) + 48) as u8) as char;
        assert(digits(n) == d.push(c));
        assert(digits(n).drop_last() =~= d);
        assert(digits(n).last() == c);
        assert(c as u32 == (n % 10) + 48);
        assert(digits_value(digits(n)) == digits_value(d) * 10 + ((c as u32) - ('0' as u32)) as nat);
        assert((n / 10) * 10 + n % 10 == n);
        assert forall|i: int| 0 <= i < digits(n).len() implies is_digit_char(#[trigger] digits(n)[i]) by {
            if i < d.len() {
                assert(digits(n)[i] == d[i]);
            }
        }
    } else {
        let c = ((n + 48) as u8) as char;
        assert(c as u32 == n + 48);
        assert(digits(n).drop_last() =~= Seq::<char>::empty());
        assert(digits(n).last() == c);
        assert(digits_value(digits(n)) == digits_value(Seq::<char>::empty()) * 10 + ((c as u32) - ('0' as u32)) as nat);
    }
}

proof fn lemma_scan_finds(s: Seq<char>, c: char, i: int, k: int)
    requires
        0 <= i <= k <= s.len(),
        forall|j: int| i <= j < k ==> s[j] != c,
        k < s.len() ==> s[k] == c,
    ensures
        scan(s, c, i) == k,
    decreases k - i,
{
    if i < k {
        lemma_scan_finds(s, c, i + 1, k);
    }
}

proof fn lemma_entry_line(pack: Map<u32, Seq<char>>, id: u32)
    requires
        id < u32::MAX,
        name_storable(pack[id]),
    ensures
        pack_line_used(entry_line(pack, id)),
        pack_line_ok(entry_line(pack, id)),
        digits_value(pack_line_id(entry_line(pack, id))) == id,
        pack_line_name(entry_line(pack, id)) == pack[id],
        forall|j: int|
            0 <= j < entry_line(pack, id).len() ==> #[trigger] entry_line(pack, id)[j] != '\n'
                && entry_line(pack, id)[j] != '\r',
{
    reveal_strlit("=");
    let d = decimal(id as int);
    let name = pack[id];
    let line = entry_line(pack, id);
    lemma_digits(id as nat);
    assert(d == digits(id as nat));
    let n = d.len() as int;
    assert(line =~= d + seq!['='] + name);
    assert(line[n] == '=');
    assert forall|j: int| 0 <= j < n implies line[j] != '=' by {
        assert(line[j] == d[j]);
        assert(is_digit_char(d[j]));
    }
    lemma_scan_finds(line, '=', 0, n);
    assert(pack_line_id(line) =~= d);
    assert forall|j: int| n + 1 <= j < line.len() implies line[j] != '=' by {
        assert(line[j] == name[j - n - 1]);
    }
    lemma_scan_finds(line, '=', n + 1, line.len() as int);
    assert(pack_line_name(line) =~= name);
    assert(is_digit_char(line[0])) by {
        assert(line[0] == d[0]);
    }
    assert(line.contains('='));
    assert forall|j: int| 0 <= j < line.len() implies #[trigger] line[j] != '\n' && line[j] != '\r' by {
        if j < n {
            assert(line[j] == d[j]);
            assert(is_digit_char(d[j]));
        } else if j > n {
            assert(line[j] == name[j - n - 1]);
        }
    }
}

proof fn lemma_split_append(s: Seq<char>, t: Seq<char>, sep: char)
    requires
        forall|j: int| 0 <= j < t.len() ==> t[j] != sep,
    ensures
        split_on(s + t, sep) == split_on(s, sep).update(
            split_on(s, sep).len() - 1,
            split_on(s, sep).last() + t,
        ),
    decreases t.len(),
{
    crate::namemap::lemma_split_pieces(s, sep);
    let b = split_on(s, sep);
    if t.len() == 0 {
        assert(s + t =~= s);
        assert(b.last() + t =~= b.last());
        assert(b.update(b.len() - 1, b.last() + t) =~= b);
    } else {
        let init = t.drop_last();
        lemma_split_append(s, init, sep);
        assert((s + t).drop_last() =~= s + init);
        assert((s + t).last() == t.last());
        let b1 = split_on(s + init, sep);
        assert(b1.last() == b.last() + init);
        assert(t.last() != sep) by {
            assert(t[t.len() - 1] == t.last());
        }
        assert(split_on(s + t, sep) == b1.update(b1.len() - 1, b1.last().push(t.last())));
        assert((b.last() + init).push(t.last()) =~= b.last() + t);
        assert(split_on(s + t, sep) =~= b.update(b.len() - 1, b.last() + t));
    }
}

proof fn lemma_split_entries(pack: Map<u32, Seq<char>>, ids: Seq<u32>)
    requires
        storable_pack(pack),
        forall|i: int| 0 <= i < ids.len() ==> pack.dom().contains(#[trigger] ids[i]),
    ensures
        split_on(entry_lines(pack, ids), '\n') == entry_line_seq(pack, ids).push(Seq::<char>::empty()),
        forall|j: int| 0 <= j < entry_lines(pack, ids).len() ==> #[trigger] entry_lines(pack, ids)[j] != '\r',
    decreases ids.len(),
{
    reveal_strlit("\n");
    reveal_strlit("=");
    if ids.len() == 0 {
        assert(entry_lines(pack, ids) =~= Seq::<char>::empty());
        assert(entry_line_seq(pack, ids) =~= Seq::<Seq<char>>::empty());
        assert(split_on(Seq::<char>::empty(), '\n') =~= entry_line_seq(pack, ids).push(Seq::<char>::empty()));
    } else {
        let init = ids.drop_last();
        let id = ids.last();
        assert forall|i: int| 0 <= i < init.len() implies pack.dom().contains(#[trigger] init[i]) by {
            assert(init[i] == ids[i]);
        }
        lemma_split_entries(pack, init);
        assert(pack.dom().contains(ids[ids.len() - 1]));
        assert(pack.dom().contains(id));
        assert(name_storable(pack[id]));
        assert(id < u32::MAX);
        lemma_entry_line(pack, id);
        let prev = entry_lines(pack, init);
        let line = entry_line(pack, id);
        assert(entry_lines(pack, ids) =~= (prev + line).push('\n'));
        lemma_split_append(prev, line, '\n');
        let lines0 = entry_line_seq(pack, init);
        assert(split_on(prev + line, '\n') =~= lines0.push(line)) by {
            assert(Seq::<char>::empty() + line =~= line);
        }
        assert((prev + line).push('\n').drop_last() =~= prev + line);
        assert(entry_line_seq(pack, ids) =~= lines0.push(line));
        assert(split_on(entry_lines(pack, ids), '\n') =~= lines0.push(line).push(Seq::<char>::empty()));
        assert forall|j: int| 0 <= j < entry_lines(pack, ids).len() implies #[trigger] entry_lines(pack, ids)[j] != '\r' by {
            if j < prev.len() {
                assert(entry_lines(pack, ids)[j] == prev[j]);
            } else if j < prev.len() + line.len() {
                assert(entry_lines(pack, ids)[j] == line[j - prev.len()]);
            }
        }
    }
}

proof fn lemma_without_cr_keeps(s: Seq<char>)
    requires
        forall|j: int| 0 <= j < s.len() ==> s[j] != '\r',
    ensures
        without_cr(s) == s,
    decreases s.len(),
{
    if s.len() > 0 {
        lemma_without_cr_keeps(s.drop_last());
        assert(s.drop_last().push(s.last()) =~= s);
    }
}

proof fn lemma_load_entries(pack: Map<u32, Seq<char>>, ids: Seq<u32>)
    requires
        storable_pack(pack),
        forall|i: int| 0 <= i < ids.len() ==> pack.dom().contains(#[trigger] ids[i]),
    ensures
        loaded_pack(entry_line_seq(pack, ids)) == pack.restrict(ids.to_set()),
    decreases ids.len(),
{
    if ids.len() == 0 {
        assert(entry_line_seq(pack, ids) =~= Seq::<Seq<char>>::empty());
        assert(pack.restrict(ids.to_set()) =~= Map::<u32, Seq<char>>::empty());
    } else {
        let init = ids.drop_last();
        let id = ids.last();
        assert forall|i: int| 0 <= i < init.len() implies pack.dom().contains(#[trigger] init[i]) by {
            assert(init[i] == ids[i]);
        }
        lemma_load_entries(pack, init);
        assert(pack.dom().contains(ids[ids.len() - 1]));
        assert(pack.dom().contains(id));
        assert(name_storable(pack[id]));
        assert(id < u32::MAX);
        lemma_entry_line(pack, id);
        let lines = entry_line_seq(pack, ids);
        assert(lines.drop_last() =~= entry_line_seq(pack, init));
        assert(lines.last() == entry_line(pack, id));
        assert(ids.to_set() =~= init.to_set().insert(id)) by {
            assert(ids =~= init.push(id));
            init.lemma_push_to_set_commute(id);
        }
        assert(loaded_pack(lines) =~= pack.restrict(ids.to_set()));
    }
}

/// Saving, then loading what was saved, gives back the entries: when every name is
/// non-empty and holds no `=`, newline or carriage return, and no id is `u32::MAX`, each line
/// of the saved text is one the loader accepts and the loaded entries are the saved ones.
pub proof fn law_save_then_load(pack: Map<u32, Seq<char>>, ids: Seq<u32>)
    requires
        lists_ids(pack, ids),
        storable_pack(pack),
    ensures
        forall|i: int|
            0 <= i < text_lines(pack_text(pack, ids)).len() ==> pack_line_ok(
                #[trigger] text_lines(pack_text(pack, ids))[i],
            ),
        loaded_pack(text_lines(pack_text(pack, ids))) == pack,
{
    reveal_strlit("\n");
    assert forall|i: int| 0 <= i < ids.len() implies pack.dom().contains(#[trigger] ids[i]) by {
        assert(ids.to_set().contains(ids[i]));
    }
    let lines = text_lines(pack_text(pack, ids));
    if ids.len() == 0 {
        assert(pack_text(pack, ids) =~= seq!['\n']);
        lemma_without_cr_keeps(seq!['\n']);
        assert(seq!['\n'].drop_last() =~= Seq::<char>::empty());
        assert(split_on(Seq::<char>::empty(), '\n') == seq![Seq::<char>::empty()]);
        assert(lines =~= seq![Seq::<char>::empty(), Seq::<char>::empty()]);
        assert(pack.dom() =~= Set::<u32>::empty());
        let one = seq![Seq::<char>::empty()];
        assert(one.drop_last() =~= Seq::<Seq<char>>::empty());
        assert(loaded_pack(Seq::<Seq<char>>::empty()) == Map::<u32, Seq<char>>::empty());
        assert(loaded_pack(one) == Map::<u32, Seq<char>>::empty());
        assert(lines.drop_last() =~= one);
        assert(loaded_pack(lines) == loaded_pack(one));
        assert(loaded_pack(lines) =~= pack);
    } else {
        lemma_split_entries(pack, ids);
        lemma_without_cr_keeps(entry_lines(pack, ids));
        let entries = entry_line_seq(pack, ids);
        assert(lines == entries.push(Seq::<char>::empty()));
        lemma_load_entries(pack, ids);
        assert(lines.drop_last() =~= entries);
        assert(pack.restrict(ids.to_set()) =~= pack);
        assert forall|i: int| 0 <= i < lines.len() implies pack_line_ok(#[trigger] lines[i]) by {
            if i < entries.len() {
                assert(pack.dom().contains(ids[i]));
                assert(name_storable(pack[ids[i]]));
                assert(ids[i] < u32::MAX);
                lemma_entry_line(pack, ids[i]);
                assert(lines[i] == entry_line(pack, ids[i]));
            }
        }
    }
}

} // verus!
