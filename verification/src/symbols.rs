use vstd::prelude::*;
use vstd::string::StringExecFns;
use crate::text::{decimal, int_to_string};

verus! {

/// The script symbol table for the script names `scripts` (indexed by id, the empty name
/// meaning no script): a line `id<TAB>name` for each named script, in id order.
pub open spec fn symbol_table(scripts: Seq<Seq<char>>) -> Seq<char>
    decreases scripts.len(),
{
    if scripts.len() == 0 {
        Seq::empty()
    } else {
        let before = symbol_table(scripts.drop_last());
        let id = scripts.len() - 1;
        if scripts.last().len() == 0 {
            before
        } else {
            before + decimal(id) + "\t"@ + scripts.last() + "\n"@
        }
    }
}

/// The text of the script symbol file for the script names `scripts`.
pub fn script_symbols(scripts: &Vec<String>) -> (table: String)
    requires
        scripts@.len() <= i64::MAX,
    ensures
        table@ == symbol_table(scripts.deep_view()),
{
    let ghost dv = scripts.deep_view();
    let mut table = String::new();
    let mut i: usize = 0;
    while i < scripts.len()
        invariant
            i <= scripts@.len() <= i64::MAX,
            dv == scripts.deep_view(),
            table@ == symbol_table(dv.take(i as int)),
        decreases scripts@.len() - i,
    {
        assert(dv.take(i + 1).drop_last() =~= dv.take(i as int));
        assert(dv[i as int] == scripts[i as int]@);
        let script = &scripts[i];
        if !script.as_str().is_empty() {
            let id = int_to_string(i as i64);
            table.append(id.as_str());
            table.append("\t");
            table.append(script.as_str());
            table.append("\n");
        } else {
            assert(scripts[i as int]@.len() == 0);
        }
        i += 1;
    }
    assert(dv.take(scripts@.len() as int) =~= dv);
    table
}

} // verus!
