use vstd::prelude::*;
use std::collections::HashMap;
use vstd::hash_map::StringHashMap;
use crate::packet::{g4_at, gbytes_at, pos_after, Packet};
use crate::script_file::{decodable, decode_spec, ScriptFile, ScriptModel};

verus! {

broadcast use vstd::std_specs::hash::group_hash_axioms;

/// The loaded scripts: all of them in load order, and those with a trigger by lookup key.
pub struct ScriptProvider {
    pub scripts: Vec<ScriptFile>,
    pub lookup: HashMap<usize, ScriptFile>,
    pub names: StringHashMap<usize>,
}

/// The contents of the scripts, in order.
pub open spec fn scripts_view(v: Seq<ScriptFile>) -> Seq<ScriptModel> {
    Seq::new(v.len(), |i: int| v[i]@)
}

/// Where loading stands after some entries of the index: the cursors in the data and the
/// index, the scripts read, the lookup table, the identifiers by name and the count read.
pub struct LoadState {
    pub dat_pos: int,
    pub idx_pos: int,
    pub scripts: Seq<ScriptModel>,
    pub lookup: Map<usize, ScriptModel>,
    pub names: Map<Seq<char>, usize>,
    pub loaded: nat,
}

/// The state before the first entry: past the entry count and compiler version of the
/// data, and past the entry count of the index.
pub open spec fn load_start(dat: Seq<u8>) -> LoadState {
    LoadState {
        dat_pos: pos_after(dat, pos_after(dat, 0, 4), 4),
        idx_pos: 4,
        scripts: Seq::empty(),
        lookup: Map::empty(),
        names: Map::empty(),
        loaded: 0,
    }
}

/// The size the index gives for the next entry.
pub open spec fn entry_size(idx: Seq<u8>, st: LoadState) -> i32 {
    g4_at(idx, st.idx_pos)
}

/// The bytes of the next entry in the data.
pub open spec fn entry_bytes(dat: Seq<u8>, idx: Seq<u8>, st: LoadState) -> Seq<u8> {
    gbytes_at(dat, st.dat_pos, entry_size(idx, st) as int)
}

/// Loading entry `id`: an entry of size zero is skipped; any other is decoded, stored, listed
/// by name and, when it has a lookup key, stored under that key.
pub open spec fn load_step(dat: Seq<u8>, idx: Seq<u8>, id: int, st: LoadState) -> LoadState {
    let size = entry_size(idx, st);
    let idx_pos = pos_after(idx, st.idx_pos, 4);
    if size == 0 {
        LoadState { idx_pos, ..st }
    } else {
        let s = decode_spec(id as i32, entry_bytes(dat, idx, st));
        LoadState {
            dat_pos: pos_after(dat, st.dat_pos, size as int),
            idx_pos,
            scripts: st.scripts.push(s),
            lookup: if s.lookup_key != -1 {
                st.lookup.insert(s.lookup_key as usize, s)
            } else {
                st.lookup
            },
            names: st.names.insert(s.name, id as usize),
            loaded: st.loaded + 1,
        }
    }
}

/// The state after entries `0..n`.
pub open spec fn load_steps(dat: Seq<u8>, idx: Seq<u8>, n: nat) -> LoadState
    decreases n,
{
    if n == 0 {
        load_start(dat)
    } else {
        load_step(dat, idx, n - 1, load_steps(dat, idx, (n - 1) as nat))
    }
}

/// Whether entry `id` can be loaded from `st`: its size is not negative and, when it is not
/// zero, its bytes are a readable script file.
pub open spec fn entry_ok(dat: Seq<u8>, idx: Seq<u8>, st: LoadState) -> bool {
    let size = entry_size(idx, st);
    &&& size >= 0
    &&& size != 0 ==> decodable(entry_bytes(dat, idx, st))
}

/// The number of entries the data announces (none when it announces a negative number).
pub open spec fn entry_count(dat: Seq<u8>) -> nat {
    let n = g4_at(dat, 0);
    if n < 0 {
        0
    } else {
        n as nat
    }
}

/// Whether `parse` can read every entry of `dat` and `idx`.
pub open spec fn loadable(dat: Seq<u8>, idx: Seq<u8>) -> bool {
    &&& dat.len() + 0x8000_0000 <= usize::MAX
    &&& idx.len() + 8 <= usize::MAX
    &&& forall|k: nat| k < entry_count(dat) ==> entry_ok(dat, idx, #[trigger] load_steps(dat, idx, k))
}

/// The scripts by lookup key, by content.
pub open spec fn lookup_model(p: &ScriptProvider) -> Map<usize, ScriptModel> {
    p.lookup@.map_values(|s: ScriptFile| s@)
}

/// The lookup key of a script for `trigger` on `tag` (1 for a category, 2 for a type) and `id`.
pub open spec fn trigger_key(trigger: i32, tag: u32, id: i32) -> usize {
    ((trigger as u32) | (tag << 8u32) | ((id as u32) << 10u32)) as usize
}

/// The version of the script compiler whose output `load` accepts.
pub const COMPILER_VERSION: u32 = 23;

impl ScriptProvider {
    /// A provider with no scripts.
    pub fn new() -> (p: ScriptProvider)
        ensures
            p.scripts@.len() == 0,
            lookup_model(&p) == Map::<usize, ScriptModel>::empty(),
            p.names@ == Map::<Seq<char>, usize>::empty(),
    {
        let p = ScriptProvider {
            scripts: Vec::new(),
            lookup: HashMap::new(),
            names: StringHashMap::new(),
        };
        assert(lookup_model(&p) =~= Map::<usize, ScriptModel>::empty());
        p
    }

    /// Loads the scripts of a packed script file `dat` and its index `idx`, and returns them
    /// with how many were loaded. Empty inputs give no scripts. The compiler version in
    /// `dat` is read and not checked.
    pub fn parse(dat: Packet, idx: Packet) -> (r: (ScriptProvider, u32))
        requires
            dat.position == 0,
            idx.position == 0,
            dat.data@.len() > 0 && idx.data@.len() > 0 ==> loadable(dat.data@, idx.data@),
        ensures
            dat.data@.len() == 0 || idx.data@.len() == 0 ==> {
                &&& r.1 == 0
                &&& r.0.scripts@.len() == 0
                &&& lookup_model(&r.0) == Map::<usize, ScriptModel>::empty()
                &&& r.0.names@ == Map::<Seq<char>, usize>::empty()
            },
            dat.data@.len() > 0 && idx.data@.len() > 0 ==> {
                let st = load_steps(dat.data@, idx.data@, entry_count(dat.data@));
                &&& r.1 == st.loaded
                &&& scripts_view(r.0.scripts@) == st.scripts
                &&& lookup_model(&r.0) == st.lookup
                &&& r.0.names@ == st.names
            },
    {
        let mut dat = dat;
        let mut idx = idx;
        if dat.is_empty() || idx.is_empty() {
            return (ScriptProvider::new(), 0);
        }
        let ghost d = dat.data@;
        let ghost x = idx.data@;
        let entries = dat.g4();
        idx.position += 4;
        let _version = dat.g4();
        let mut scripts: Vec<ScriptFile> = Vec::new();
        let mut lookup: HashMap<usize, ScriptFile> = HashMap::new();
        let mut names: StringHashMap<usize> = StringHashMap::new();
        let mut loaded: u32 = 0;
        let mut id: i32 = 0;
        proof {
            assert(scripts_view(scripts@) =~= Seq::<ScriptModel>::empty());
            assert(lookup@.map_values(|s: ScriptFile| s@) =~= Map::<usize, ScriptModel>::empty());
            assert(names@ =~= Map::<Seq<char>, usize>::empty());
        }
        while id < entries
            invariant
                dat.data@ == d,
                idx.data@ == x,
                loadable(d, x),
                entries == g4_at(d, 0),
                0 <= id,
                entries < 0 ==> id == 0,
                entries >= 0 ==> id <= entries,
                ({
                    let st = load_steps(d, x, id as nat);
                    &&& dat.position == st.dat_pos
                    &&& idx.position == st.idx_pos
                    &&& scripts_view(scripts@) == st.scripts
                    &&& lookup@.map_values(|s: ScriptFile| s@) == st.lookup
                    &&& names@ == st.names
                    &&& loaded == st.loaded
                    &&& st.loaded <= id
                    &&& 0 <= st.dat_pos <= d.len()
                    &&& 0 <= st.idx_pos <= x.len() + 4
                }),
            decreases entries - id,
        {
            let ghost st = load_steps(d, x, id as nat);
            assert(entry_ok(d, x, load_steps(d, x, id as nat)));
            let size = idx.g4();
            if size != 0 {
                let bytes = dat.gbytes(size as usize);
                let script = ScriptFile::decode(id as usize, Packet::from(bytes));
                let ghost before_scripts = scripts@;
                let ghost before_lookup = lookup@;
                if script.info.lookup_key != -1 {
                    lookup.insert(script.info.lookup_key as usize, script.duplicate());
                    assert(lookup@.map_values(|s: ScriptFile| s@) =~= before_lookup.map_values(
                        |s: ScriptFile| s@,
                    ).insert(script.info.lookup_key as usize, script@));
                }
                names.insert(script.info.script_name.clone(), id as usize);
                scripts.push(script);
                assert(scripts_view(scripts@) =~= scripts_view(before_scripts).push(script@));
                loaded += 1;
            }
            id += 1;
        }
        proof {
            assert(id as nat == entry_count(d));
        }
        (ScriptProvider { scripts, lookup, names }, loaded)
    }

    /// A copy of the script stored under lookup key `id`.
    pub fn get(&self, id: usize) -> (r: Option<ScriptFile>)
        ensures
            r matches Some(s) ==> lookup_model(self).contains_key(id) && s@ == lookup_model(
                self,
            )[id],
            r is None ==> !lookup_model(self).contains_key(id),
    {
        match self.lookup.get(&id) {
            Some(s) => Some(s.duplicate()),
            None => None,
        }
    }

    /// The script for `trigger`: for the type when `type_id` is not -1 and there is one,
    /// else for the category when `category` is not -1 and there is one, else the general one.
    pub fn get_by_trigger(&self, trigger: i32, type_id: i32, category: i32) -> (r: Option<ScriptFile>)
        ensures
            ({
                let m = lookup_model(self);
                let tk = trigger_key(trigger, 2, type_id);
                let ck = trigger_key(trigger, 1, category);
                let gk = trigger as usize;
                if type_id != -1 && m.contains_key(tk) {
                    r matches Some(s) && s@ == m[tk]
                } else if category != -1 && m.contains_key(ck) {
                    r matches Some(s) && s@ == m[ck]
                } else if m.contains_key(gk) {
                    r matches Some(s) && s@ == m[gk]
                } else {
                    r is None
                }
            }),
    {
        if type_id != -1 {
            let key = ((trigger as u32) | (2u32 << 8u32) | ((type_id as u32) << 10u32)) as usize;
            if let Some(script) = self.get(key) {
                return Some(script);
            }
        }
        if category != -1 {
            let key = ((trigger as u32) | (1u32 << 8u32) | ((category as u32) << 10u32)) as usize;
            if let Some(script) = self.get(key) {
                return Some(script);
            }
        }
        self.get(trigger as usize)
    }

    /// The script for `trigger` on exactly `type_id` when it is not -1, else on exactly
    /// `category` when it is not -1, else the general one.
    pub fn get_by_trigger_specific(&self, trigger: i32, type_id: i32, category: i32) -> (r: Option<
        ScriptFile,
    >)
        ensures
            ({
                let m = lookup_model(self);
                let key = if type_id != -1 {
                    trigger_key(trigger, 2, type_id)
                } else if category != -1 {
                    trigger_key(trigger, 1, category)
                } else {
                    trigger as usize
                };
                &&& m.contains_key(key) ==> (r matches Some(s) && s@ == m[key])
                &&& !m.contains_key(key) ==> r is None
            }),
    {
        if type_id != -1 {
            let key = ((trigger as u32) | (2u32 << 8u32) | ((type_id as u32) << 10u32)) as usize;
            return self.get(key);
        }
        if category != -1 {
            let key = ((trigger as u32) | (1u32 << 8u32) | ((category as u32) << 10u32)) as usize;
            return self.get(key);
        }
        self.get(trigger as usize)
    }
}

} // verus!
