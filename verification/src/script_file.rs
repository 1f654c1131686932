use vstd::prelude::*;
use std::collections::HashMap;
use crate::script_opcode::{GOSUB, JUMP, POP_INT_DISCARD, POP_STRING_DISCARD, PUSH_CONSTANT_STRING, RETURN};
use crate::packet::{
    g1_at, g2_at, g4_at, gjstr_at, gjstr_pos, pos_after, Packet,
};

verus! {

broadcast use vstd::std_specs::hash::group_hash_axioms;

/// A jump table of a `switch` instruction: case value to branch offset.
pub type SwitchTable = HashMap<i32, Option<i32>>;

/// Whether an instruction carries a four-byte operand (otherwise it carries one byte).
pub open spec fn large_operand(opcode: int) -> bool {
    opcode <= 100 && opcode != RETURN as int && opcode != POP_INT_DISCARD as int && opcode
        != POP_STRING_DISCARD as int && opcode != GOSUB as int && opcode != JUMP as int
}

/// Whether `opcode` carries a four-byte operand (otherwise it carries one byte).
pub fn is_large_operand(opcode: i32) -> (b: bool)
    ensures
        b == large_operand(opcode as int),
{
    if opcode > 100 {
        return false;
    }
    if opcode == RETURN as i32 || opcode == POP_INT_DISCARD as i32 || opcode
        == POP_STRING_DISCARD as i32 || opcode == GOSUB as i32 || opcode == JUMP as i32 {
        false
    } else {
        true
    }
}

/// Debugging information of a compiled script.
pub struct ScriptInfo {
    pub script_name: String,
    pub source_file_path: String,
    pub lookup_key: i32,
    pub parameter_types: Vec<i32>,
    pub pcs: Vec<i32>,
    pub lines: Vec<i32>,
}

/// A compiled script: its instructions, operands and local-variable layout.
pub struct ScriptFile {
    pub info: ScriptInfo,
    pub id: i32,
    pub int_local_count: i32,
    pub string_local_count: i32,
    pub int_arg_count: i32,
    pub string_arg_count: i32,
    pub switch_tables: Vec<SwitchTable>,
    pub opcodes: Vec<u16>,
    pub int_operands: Vec<i32>,
    pub string_operands: Vec<String>,
}

/// The contents of a `ScriptFile`.
#[verifier::ext_equal]
pub struct ScriptModel {
    pub name: Seq<char>,
    pub source: Seq<char>,
    pub lookup_key: i32,
    pub parameter_types: Seq<i32>,
    pub pcs: Seq<i32>,
    pub lines: Seq<i32>,
    pub id: i32,
    pub int_local_count: i32,
    pub string_local_count: i32,
    pub int_arg_count: i32,
    pub string_arg_count: i32,
    pub switch_tables: Seq<Map<i32, Option<i32>>>,
    pub opcodes: Seq<u16>,
    pub int_operands: Seq<i32>,
    pub string_operands: Seq<Seq<char>>,
}

/// The views of the switch tables.
pub open spec fn tables_view(t: Seq<SwitchTable>) -> Seq<Map<i32, Option<i32>>> {
    Seq::new(t.len(), |i: int| t[i]@)
}

impl View for ScriptFile {
    type V = ScriptModel;

    open spec fn view(&self) -> ScriptModel {
        ScriptModel {
            name: self.info.script_name@,
            source: self.info.source_file_path@,
            lookup_key: self.info.lookup_key,
            parameter_types: self.info.parameter_types@,
            pcs: self.info.pcs@,
            lines: self.info.lines@,
            id: self.id,
            int_local_count: self.int_local_count,
            string_local_count: self.string_local_count,
            int_arg_count: self.int_arg_count,
            string_arg_count: self.string_arg_count,
            switch_tables: tables_view(self.switch_tables@),
            opcodes: self.opcodes@,
            int_operands: self.int_operands@,
            string_operands: self.string_operands.deep_view(),
        }
    }
}

/// `<unknown>`.
pub open spec fn unknown_name() -> Seq<char> {
    seq!['<', 'u', 'n', 'k', 'n', 'o', 'w', 'n', '>']
}

/// An empty script with identifier `id`.
pub open spec fn empty_script(id: i32) -> ScriptModel {
    ScriptModel {
        name: unknown_name(),
        source: unknown_name(),
        lookup_key: -1i32,
        parameter_types: Seq::empty(),
        pcs: Seq::empty(),
        lines: Seq::empty(),
        id,
        int_local_count: 0,
        string_local_count: 0,
        int_arg_count: 0,
        string_arg_count: 0,
        switch_tables: Seq::empty(),
        opcodes: Seq::empty(),
        int_operands: Seq::empty(),
        string_operands: Seq::empty(),
    }
}

/// Whether `i` is the first index of `pc` in `pcs`.
pub open spec fn is_first_pc(pcs: Seq<i32>, pc: i32, i: int) -> bool {
    &&& 0 <= i < pcs.len()
    &&& pcs[i] == pc
    &&& forall|j: int| 0 <= j < i ==> pcs[j] != pc
}

/// Whether `pc` occurs in `pcs`.
pub open spec fn has_pc(pcs: Seq<i32>, pc: i32) -> bool {
    exists|i: int| is_first_pc(pcs, pc, i)
}

/// The first index of `pc` in `pcs` (meaningful when `has_pc`).
pub open spec fn first_pc(pcs: Seq<i32>, pc: i32) -> int {
    choose|i: int| is_first_pc(pcs, pc, i)
}

/// What `line_number` returns: the line before the first entry for `pc` when that entry
/// is not the first, otherwise the last line (0 when there is none).
pub open spec fn line_number_spec(pcs: Seq<i32>, lines: Seq<i32>, pc: i32) -> i32 {
    if has_pc(pcs, pc) && first_pc(pcs, pc) > 0 {
        lines[first_pc(pcs, pc) - 1]
    } else if lines.len() > 0 {
        lines.last()
    } else {
        0
    }
}

/// The text of `path` after its last `/` (all of it when it has none).
pub open spec fn after_last_slash(path: Seq<char>) -> Seq<char>
    decreases path.len(),
{
    if path.len() == 0 {
        path
    } else if path.last() == '/' {
        Seq::empty()
    } else {
        after_last_slash(path.drop_last()).push(path.last())
    }
}

/// The file name of `path` where the path rules of every build target agree on it: the path
/// holds no `\` and does not start with `//`, and its text after the last `/` is a name other
/// than `.` and `..` (holding no `:` when it is the whole path, which could then start with a
/// drive). `None` where this reading does not settle the file name.
pub open spec fn plain_file_name(path: Seq<char>) -> Option<Seq<char>> {
    let name = after_last_slash(path);
    if !path.contains('\\') && !(path.len() >= 2 && path[0] == '/' && path[1] == '/')
        && name.len() > 0 && name != seq!['.'] && name != seq!['.', '.'] && (name.len()
        < path.len() || !name.contains(':')) {
        Some(name)
    } else {
        None
    }
}

/// Calls `std::path::Path::new(path).file_name()` and converts the result to text. Which
/// characters separate components, and which prefixes a path may start with, depend on the
/// build target; the contract states what every target gives: the name after the last `/` of
/// a plain path (`plain_file_name`), and that a name found is never empty. What it finds on
/// other paths is left unsaid.
#[verifier::external_body]
fn file_name_of(path: &str) -> (r: Option<String>)
    ensures
        r is None ==> plain_file_name(path@) is None,
        r matches Some(s) ==> (plain_file_name(path@) is Some ==> plain_file_name(path@) == Some(s@)),
        r matches Some(s) ==> s@.len() > 0,
{
    std::path::Path::new(path).file_name().and_then(|n| n.to_str()).map(|s| s.to_string())
}

/// A copy of a vector of strings.
fn clone_strings(v: &Vec<String>) -> (r: Vec<String>)
    ensures
        r.deep_view() == v.deep_view(),
{
    let mut r: Vec<String> = Vec::new();
    let mut i: usize = 0;
    while i < v.len()
        invariant
            i <= v@.len(),
            r@.len() == i,
            forall|j: int| 0 <= j < i ==> #[trigger] r@[j]@ == v@[j]@,
        decreases v@.len() - i,
    {
        r.push(v[i].clone());
        i += 1;
    }
    assert(r.deep_view() =~= v.deep_view());
    r
}


/// The cursor after `g1` at `p`.
pub open spec fn g1_pos(d: Seq<u8>, p: int) -> int {
    if p >= d.len() {
        p
    } else {
        p + 1
    }
}

/// The entries of a switch table of `n` (key, offset) pairs read from `p`, later entries
/// replacing earlier ones with the same key, and the cursor after them.
pub open spec fn read_table(d: Seq<u8>, p: int, n: nat) -> (Map<i32, Option<i32>>, int)
    decreases n,
{
    if n == 0 {
        (Map::empty(), p)
    } else {
        let (m, q) = read_table(d, p, (n - 1) as nat);
        let key = g4_at(d, q);
        let q1 = pos_after(d, q, 4);
        let offset = g4_at(d, q1);
        (m.insert(key, Some(offset)), pos_after(d, q1, 4))
    }
}

/// `n` switch tables read from `p` (each a two-byte count then its pairs), and the cursor.
pub open spec fn read_tables(d: Seq<u8>, p: int, n: nat) -> (Seq<Map<i32, Option<i32>>>, int)
    decreases n,
{
    if n == 0 {
        (Seq::empty(), p)
    } else {
        let (ts, q) = read_tables(d, p, (n - 1) as nat);
        let count = g2_at(d, q);
        let (t, r) = read_table(d, pos_after(d, q, 2), count as nat);
        (ts.push(t), r)
    }
}

/// `n` single bytes read from `p`, and the cursor.
pub open spec fn read_bytes_i32(d: Seq<u8>, p: int, n: nat) -> (Seq<i32>, int)
    decreases n,
{
    if n == 0 {
        (Seq::empty(), p)
    } else {
        let (s, q) = read_bytes_i32(d, p, (n - 1) as nat);
        (s.push(g1_at(d, q) as i32), g1_pos(d, q))
    }
}

/// `n` (pc, line) pairs of four-byte values read from `p`, and the cursor.
pub open spec fn read_line_table(d: Seq<u8>, p: int, n: nat) -> (Seq<i32>, Seq<i32>, int)
    decreases n,
{
    if n == 0 {
        (Seq::empty(), Seq::empty(), p)
    } else {
        let (pcs, lines, q) = read_line_table(d, p, (n - 1) as nat);
        let q1 = pos_after(d, q, 4);
        (pcs.push(g4_at(d, q)), lines.push(g4_at(d, q1)), pos_after(d, q1, 4))
    }
}

/// One instruction read at `p`: its opcode, its operand (a string for
/// `PUSH_CONSTANT_STRING`, four bytes for a large operand, one byte otherwise) and the cursor.
pub open spec fn read_instruction(d: Seq<u8>, p: int) -> (u16, Option<i32>, Option<Seq<char>>, int) {
    let op = g2_at(d, p);
    let q = pos_after(d, p, 2);
    if op == PUSH_CONSTANT_STRING {
        (op, None, Some(gjstr_at(d, q, 0)), gjstr_pos(d, q, 0))
    } else if large_operand(op as int) {
        (op, Some(g4_at(d, q)), None, pos_after(d, q, 4))
    } else {
        (op, Some(g1_at(d, q) as i32), None, g1_pos(d, q))
    }
}

/// The instructions read from `p` while the cursor is before `end`: opcodes, integer
/// operands and string operands.
pub open spec fn read_code(d: Seq<u8>, p: int, end: int) -> (Seq<u16>, Seq<i32>, Seq<Seq<char>>)
    decreases d.len() - p,
{
    if p >= end || p >= d.len() {
        (Seq::empty(), Seq::empty(), Seq::empty())
    } else {
        let (op, int_operand, string_operand, q) = read_instruction(d, p);
        if q <= p {
            (Seq::empty(), Seq::empty(), Seq::empty())
        } else {
            let (ops, ints, strs) = read_code(d, q, end);
            (
                seq![op] + ops,
                match int_operand {
                    Some(v) => seq![v] + ints,
                    None => ints,
                },
                match string_operand {
                    Some(s) => seq![s] + strs,
                    None => strs,
                },
            )
        }
    }
}

/// Where the trailer of a script file of `d` starts.
pub open spec fn trailer_start(d: Seq<u8>) -> int {
    d.len() - g2_at(d, d.len() - 2) - 14
}

/// Whether `decode` can read `d`: room for the trailer length and the trailer it names.
pub open spec fn decodable(d: Seq<u8>) -> bool {
    &&& d.len() >= 2
    &&& trailer_start(d) >= 0
    &&& d.len() + 8 <= usize::MAX
}

/// The script `decode` reads from `d`: the trailer (local and argument counts, switch
/// tables), then from the start the name, source path, lookup key, parameter types and line
/// table, then the instructions up to the trailer.
pub open spec fn decode_spec(id: i32, d: Seq<u8>) -> ScriptModel {
    let tp = trailer_start(d);
    let p1 = pos_after(d, tp, 4);
    let p2 = pos_after(d, p1, 2);
    let p3 = pos_after(d, p2, 2);
    let p4 = pos_after(d, p3, 2);
    let p5 = pos_after(d, p4, 2);
    let switches = g1_at(d, p5);
    let tables = read_tables(d, g1_pos(d, p5), switches as nat).0;
    let q1 = gjstr_pos(d, 0, 0);
    let q2 = gjstr_pos(d, q1, 0);
    let q3 = pos_after(d, q2, 4);
    let ptc = g1_at(d, q3);
    let (ptypes, q5) = read_bytes_i32(d, g1_pos(d, q3), ptc as nat);
    let ltl = g2_at(d, q5);
    let (pcs, lines, q7) = read_line_table(d, pos_after(d, q5, 2), ltl as nat);
    let (ops, ints, strs) = read_code(d, q7, tp);
    ScriptModel {
        name: gjstr_at(d, 0, 0),
        source: gjstr_at(d, q1, 0),
        lookup_key: g4_at(d, q2),
        parameter_types: ptypes,
        pcs,
        lines,
        id,
        int_local_count: g2_at(d, p1) as i32,
        string_local_count: g2_at(d, p2) as i32,
        int_arg_count: g2_at(d, p3) as i32,
        string_arg_count: g2_at(d, p4) as i32,
        switch_tables: tables,
        opcodes: ops,
        int_operands: ints,
        string_operands: strs,
    }
}

impl Default for ScriptFile {
    /// An empty script named `<unknown>` with identifier -1.
    fn default() -> (s: ScriptFile)
        ensures
            s@ == empty_script(-1i32),
    {
        ScriptFile::new(-1)
    }
}

impl ScriptFile {
    /// An empty script with identifier `id`, named `<unknown>`.
    pub fn new(id: i32) -> (s: ScriptFile)
        ensures
            s@ == empty_script(id),
    {
        let mut name = String::new();
        crate::text::push_str_chars(&mut name, &['<', 'u', 'n', 'k', 'n', 'o', 'w', 'n', '>']);
        let mut source = String::new();
        crate::text::push_str_chars(&mut source, &['<', 'u', 'n', 'k', 'n', 'o', 'w', 'n', '>']);
        let s = ScriptFile {
            info: ScriptInfo {
                script_name: name,
                source_file_path: source,
                lookup_key: -1,
                parameter_types: Vec::new(),
                pcs: Vec::new(),
                lines: Vec::new(),
            },
            id,
            int_local_count: 0,
            string_local_count: 0,
            int_arg_count: 0,
            string_arg_count: 0,
            switch_tables: Vec::new(),
            opcodes: Vec::new(),
            int_operands: Vec::new(),
            string_operands: Vec::new(),
        };
        assert(s@ =~= empty_script(id)) by {
            assert(s@.switch_tables =~= Seq::<Map<i32, Option<i32>>>::empty());
            assert(s@.string_operands =~= Seq::<Seq<char>>::empty());
        }
        s
    }

    /// A copy of this script.
    pub fn duplicate(&self) -> (s: ScriptFile)
        ensures
            s@ == self@,
    {
        let mut tables: Vec<SwitchTable> = Vec::new();
        let mut i: usize = 0;
        while i < self.switch_tables.len()
            invariant
                i <= self.switch_tables@.len(),
                tables@.len() == i,
                forall|j: int| 0 <= j < i ==> #[trigger] tables@[j]@ == self.switch_tables@[j]@,
            decreases self.switch_tables@.len() - i,
        {
            tables.push(self.switch_tables[i].clone());
            i += 1;
        }
        let s = ScriptFile {
            info: ScriptInfo {
                script_name: self.info.script_name.clone(),
                source_file_path: self.info.source_file_path.clone(),
                lookup_key: self.info.lookup_key,
                parameter_types: self.info.parameter_types.clone(),
                pcs: self.info.pcs.clone(),
                lines: self.info.lines.clone(),
            },
            id: self.id,
            int_local_count: self.int_local_count,
            string_local_count: self.string_local_count,
            int_arg_count: self.int_arg_count,
            string_arg_count: self.string_arg_count,
            switch_tables: tables,
            opcodes: self.opcodes.clone(),
            int_operands: self.int_operands.clone(),
            string_operands: clone_strings(&self.string_operands),
        };
        assert(s@ =~= self@) by {
            assert(s@.switch_tables =~= self@.switch_tables);
            assert(s@.parameter_types =~= self@.parameter_types);
            assert(s@.pcs =~= self@.pcs);
            assert(s@.lines =~= self@.lines);
            assert(s@.opcodes =~= self@.opcodes);
            assert(s@.int_operands =~= self@.int_operands);
        }
        s
    }

    /// The script's name.
    pub fn name(&self) -> (s: &str)
        ensures
            s@ == self@.name,
    {
        self.info.script_name.as_str()
    }

    /// The last component of the script's source path.
    pub fn file_name(&self) -> (r: Option<String>)
        ensures
            r is None ==> plain_file_name(self@.source) is None,
            r matches Some(s) ==> (plain_file_name(self@.source) is Some ==> plain_file_name(
                self@.source,
            ) == Some(s@)),
            r matches Some(s) ==> s@.len() > 0,
    {
        file_name_of(self.info.source_file_path.as_str())
    }

    /// Reads a compiled script file with identifier `id`.
    pub fn decode(id: usize, packet: Packet) -> (s: ScriptFile)
        requires
            decodable(packet.data@),
        ensures
            s@ == decode_spec(id as i32, packet.data@),
    {
        let mut packet = packet;
        let ghost d = packet.data@;
        let length = packet.len();
        packet.position = length - 2;
        let trailer_length = packet.g2() as usize;
        let trailer_position = length - trailer_length - 12 - 2;
        packet.position = trailer_position;
        let _instructions = packet.g4();
        let int_local_count = packet.g2() as i32;
        let string_local_count = packet.g2() as i32;
        let int_arg_count = packet.g2() as i32;
        let string_arg_count = packet.g2() as i32;
        let switches = packet.g1();
        let ghost p6 = packet.position as int;
        let mut switch_tables: Vec<SwitchTable> = Vec::new();
        let mut i: u8 = 0;
        assert(tables_view(switch_tables@) =~= Seq::<Map<i32, Option<i32>>>::empty());
        while i < switches
            invariant
                packet.data@ == d,
                d.len() + 8 <= usize::MAX,
                packet.position <= d.len(),
                i <= switches,
                (tables_view(switch_tables@), packet.position as int) == read_tables(d, p6, i as nat),
            decreases switches - i,
        {
            let count = packet.g2();
            let ghost t0 = packet.position as int;
            let mut table: SwitchTable = HashMap::new();
            let mut j: u16 = 0;
            while j < count
                invariant
                    packet.data@ == d,
                    d.len() + 8 <= usize::MAX,
                    packet.position <= d.len(),
                    j <= count,
                    (table@, packet.position as int) == read_table(d, t0, j as nat),
                decreases count - j,
            {
                let key = packet.g4();
                let offset = packet.g4();
                table.insert(key, Some(offset));
                j += 1;
            }
            let ghost before = switch_tables@;
            switch_tables.push(table);
            assert(tables_view(switch_tables@) =~= tables_view(before).push(table@));
            i += 1;
        }
        packet.position = 0;
        let script_name = packet.gjstr(0);
        let source_file_path = packet.gjstr(0);
        let lookup_key = packet.g4();
        let parameter_type_count = packet.g1();
        let ghost q4 = packet.position as int;
        let mut parameter_types: Vec<i32> = Vec::new();
        let mut k: u8 = 0;
        while k < parameter_type_count
            invariant
                packet.data@ == d,
                d.len() + 8 <= usize::MAX,
                packet.position <= d.len(),
                k <= parameter_type_count,
                (parameter_types@, packet.position as int) == read_bytes_i32(d, q4, k as nat),
            decreases parameter_type_count - k,
        {
            let t = packet.g1() as i32;
            parameter_types.push(t);
            k += 1;
        }
        let line_number_table_length = packet.g2() as usize;
        let ghost q6 = packet.position as int;
        let mut pcs: Vec<i32> = Vec::new();
        let mut lines: Vec<i32> = Vec::new();
        let mut k: usize = 0;
        while k < line_number_table_length
            invariant
                packet.data@ == d,
                d.len() + 8 <= usize::MAX,
                packet.position <= d.len(),
                k <= line_number_table_length,
                (pcs@, lines@, packet.position as int) == read_line_table(d, q6, k as nat),
            decreases line_number_table_length - k,
        {
            let pc = packet.g4();
            pcs.push(pc);
            let line = packet.g4();
            lines.push(line);
            k += 1;
        }
        let ghost q7 = packet.position as int;
        let ghost total = read_code(d, q7, trailer_position as int);
        let mut opcodes: Vec<u16> = Vec::new();
        let mut int_operands: Vec<i32> = Vec::new();
        let mut string_operands: Vec<String> = Vec::new();
        proof {
            assert(opcodes@ + total.0 =~= total.0);
            assert(int_operands@ + total.1 =~= total.1);
            assert(string_operands.deep_view() + total.2 =~= total.2);
        }
        while trailer_position > packet.position
            invariant
                packet.data@ == d,
                d.len() + 8 <= usize::MAX,
                packet.position <= d.len(),
                trailer_position < d.len(),
                total == read_code(d, q7, trailer_position as int),
                ({
                    let rest = read_code(d, packet.position as int, trailer_position as int);
                    &&& opcodes@ + rest.0 == total.0
                    &&& int_operands@ + rest.1 == total.1
                    &&& string_operands.deep_view() + rest.2 == total.2
                }),
            decreases d.len() - packet.position,
        {
            let ghost p = packet.position as int;
            let ghost before_ops = opcodes@;
            let ghost before_ints = int_operands@;
            let ghost before_strs = string_operands.deep_view();
            let opcode = packet.g2();
            if opcode == PUSH_CONSTANT_STRING {
                let text = packet.gjstr(0);
                string_operands.push(text);
                assert(string_operands.deep_view() =~= before_strs.push(text@));
            } else if is_large_operand(opcode as i32) {
                let v = packet.g4();
                int_operands.push(v);
            } else {
                let v = packet.g1() as i32;
                int_operands.push(v);
            }
            opcodes.push(opcode);
            proof {
                let (op, io, so, q) = read_instruction(d, p);
                assert(q == packet.position as int);
                assert(q > p);
                let rest = read_code(d, q, trailer_position as int);
                assert(read_code(d, p, trailer_position as int) == (
                    seq![op] + rest.0,
                    match io {
                        Some(v) => seq![v] + rest.1,
                        None => rest.1,
                    },
                    match so {
                        Some(t) => seq![t] + rest.2,
                        None => rest.2,
                    },
                ));
                assert(opcodes@ + rest.0 =~= before_ops + (seq![op] + rest.0));
                match io {
                    Some(v) => {
                        assert(int_operands@ + rest.1 =~= before_ints + (seq![v] + rest.1));
                        assert(string_operands.deep_view() == before_strs);
                    },
                    None => {
                        assert(int_operands@ == before_ints);
                        let t = so->0;
                        assert(string_operands.deep_view() + rest.2 =~= before_strs + (seq![t]
                            + rest.2));
                    },
                }
            }
        }
        proof {
            let rest = read_code(d, packet.position as int, trailer_position as int);
            assert(rest.0 =~= Seq::<u16>::empty());
            assert(opcodes@ + rest.0 =~= opcodes@);
            assert(int_operands@ + rest.1 =~= int_operands@);
            assert(string_operands.deep_view() + rest.2 =~= string_operands.deep_view());
        }
        let script = ScriptFile {
            info: ScriptInfo {
                script_name,
                source_file_path,
                lookup_key,
                parameter_types,
                pcs,
                lines,
            },
            id: id as i32,
            int_local_count,
            string_local_count,
            int_arg_count,
            string_arg_count,
            switch_tables,
            opcodes,
            int_operands,
            string_operands,
        };
        assert(script@ =~= decode_spec(id as i32, d));
        script
    }

    /// The source line of the instruction at `pc`: the line recorded before the first
    /// entry for `pc` in the line table, or the last line when `pc` is not found (or is
    /// found first).
    pub fn line_number(&self, pc: i32) -> (line: i32)
        requires
            has_pc(self@.pcs, pc) && first_pc(self@.pcs, pc) > 0 ==> first_pc(self@.pcs, pc)
                - 1 < self@.lines.len(),
        ensures
            line == line_number_spec(self@.pcs, self@.lines, pc),
    {
        let pcs = &self.info.pcs;
        let lines = &self.info.lines;
        let mut i: usize = 0;
        while i < pcs.len()
            invariant
                i <= pcs@.len(),
                pcs@ == self@.pcs,
                lines@ == self@.lines,
                forall|j: int| 0 <= j < i ==> pcs@[j] != pc,
                has_pc(self@.pcs, pc) && first_pc(self@.pcs, pc) > 0 ==> first_pc(self@.pcs, pc)
                    - 1 < self@.lines.len(),
            decreases pcs@.len() - i,
        {
            if pcs[i] == pc {
                assert(is_first_pc(pcs@, pc, i as int));
                proof {
                    let f = first_pc(pcs@, pc);
                    if f < i {
                        assert(pcs@[f] != pc);
                    } else if f > i {
                        assert(pcs@[i as int] != pc);
                    }
                }
                if i > 0 {
                    return lines[i - 1];
                }
                return if lines.len() > 0 {
                    lines[lines.len() - 1]
                } else {
                    0
                };
            }
            i += 1;
        }
        proof {
            if has_pc(pcs@, pc) && i == pcs@.len() {
                let f = first_pc(pcs@, pc);
                assert(pcs@[f] != pc);
            }
        }
        if lines.len() > 0 {
            lines[lines.len() - 1]
        } else {
            0
        }
    }
}


} // verus!
