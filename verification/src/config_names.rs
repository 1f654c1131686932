use vstd::prelude::*;
use vstd::string::StringExecFns;
use crate::pack_file::{find_from, scan};
use crate::text::{chars_of, string_of_range};

verus! {

/// One source file found while crawling: its path, the name of the directory that holds
/// it, the name of that directory's parent, and its lines.
pub struct ConfigSource {
    pub path: String,
    pub file_dir: String,
    pub parent_dir: String,
    pub lines: Vec<String>,
}

/// A crawled source file as text.
pub struct SourceModel {
    pub path: Seq<char>,
    pub file_dir: Seq<char>,
    pub parent_dir: Seq<char>,
    pub lines: Seq<Seq<char>>,
}

impl View for ConfigSource {
    type V = SourceModel;

    open spec fn view(&self) -> SourceModel {
        SourceModel {
            path: self.path@,
            file_dir: self.file_dir@,
            parent_dir: self.parent_dir@,
            lines: self.lines.deep_view(),
        }
    }
}

/// The views of a list of sources.
pub open spec fn sources_view(sources: Seq<ConfigSource>) -> Seq<SourceModel> {
    sources.map_values(|s: ConfigSource| s@)
}

/// The path of the engine's own script file, which the crawl passes over.
pub open spec fn engine_script_path() -> Seq<char> {
    "./data/src/scripts/engine.rs2"@
}

/// A line declares a name when it starts with `[` and holds a `]`.
pub open spec fn declares_name(line: Seq<char>) -> bool {
    line.len() > 0 && line[0] == '[' && line.contains(']')
}

/// The name a declaring line gives: up to and including the first `]`, or, without
/// brackets, what lies between the leading `[` and that `]`.
pub open spec fn declared_name(line: Seq<char>, include_brackets: bool) -> Seq<char> {
    let close = scan(line, ']', 0);
    if include_brackets {
        line.take(close + 1)
    } else {
        line.subrange(1, close)
    }
}

/// `names` after adding, in order, each name that `lines` declare and `names` lacks.
pub open spec fn names_with_lines(
    names: Seq<Seq<char>>,
    lines: Seq<Seq<char>>,
    include_brackets: bool,
) -> Seq<Seq<char>>
    decreases lines.len(),
{
    if lines.len() == 0 {
        names
    } else {
        let before = names_with_lines(names, lines.drop_last(), include_brackets);
        let line = lines.last();
        if declares_name(line) && !before.contains(declared_name(line, include_brackets)) {
            before.push(declared_name(line, include_brackets))
        } else {
            before
        }
    }
}

/// Whether a file with extension `ext` may declare names where it lies: always under
/// `_unpack` and for `.flo` files; scripts under a `scripts` directory; configs under a
/// `configs` directory (the directory itself or its parent).
pub open spec fn location_ok(ext: Seq<char>, file_dir: Seq<char>, parent_dir: Seq<char>) -> bool {
    if file_dir == "_unpack"@ || ext == ".flo"@ {
        true
    } else if ext == ".rs2"@ {
        file_dir == "scripts"@ || parent_dir == "scripts"@
    } else {
        file_dir == "configs"@ || parent_dir == "configs"@
    }
}

/// A source the crawl reads: any but the engine's own script file.
pub open spec fn crawled_source(s: SourceModel) -> bool {
    s.path != engine_script_path()
}

/// A source that declares a name lies where its kind belongs (the crawl panics otherwise).
pub open spec fn source_ok(s: SourceModel, ext: Seq<char>) -> bool {
    crawled_source(s) && (exists|i: int| 0 <= i < s.lines.len() && declares_name(#[trigger] s.lines[i]))
        ==> location_ok(ext, s.file_dir, s.parent_dir)
}

/// The names declared across `sources`, each once, in the order first met.
pub open spec fn crawled_names(sources: Seq<SourceModel>, include_brackets: bool) -> Seq<Seq<char>>
    decreases sources.len(),
{
    if sources.len() == 0 {
        Seq::empty()
    } else {
        let before = crawled_names(sources.drop_last(), include_brackets);
        if crawled_source(sources.last()) {
            names_with_lines(before, sources.last().lines, include_brackets)
        } else {
            before
        }
    }
}

fn str_eq(a: &str, b: &str) -> (r: bool)
    ensures
        r == (a@ == b@),
{
    let x = String::from_str(a);
    let y = String::from_str(b);
    x == y
}

fn contains_string(v: &Vec<String>, s: &String) -> (r: bool)
    ensures
        r == v.deep_view().contains(s@),
{
    let mut i: usize = 0;
    while i < v.len()
        invariant
            i <= v@.len(),
            forall|j: int| 0 <= j < i ==> v.deep_view()[j] != s@,
        decreases v@.len() - i,
    {
        if v[i] == *s {
            assert(v.deep_view()[i as int] == s@);
            return true;
        }
        i += 1;
    }
    false
}

/// Whether a file with extension `ext`, in directory `file_dir` whose parent is
/// `parent_dir`, lies where its kind of file belongs.
pub fn config_location_ok(ext: &str, file_dir: &str, parent_dir: &str) -> (r: bool)
    ensures
        r == location_ok(ext@, file_dir@, parent_dir@),
{
    if str_eq(file_dir, "_unpack") || str_eq(ext, ".flo") {
        true
    } else if str_eq(ext, ".rs2") {
        str_eq(file_dir, "scripts") || str_eq(parent_dir, "scripts")
    } else {
        str_eq(file_dir, "configs") || str_eq(parent_dir, "configs")
    }
}

/// The name that `line` declares, if it declares one.
fn line_name(line: &str, include_brackets: bool) -> (r: Option<String>)
    ensures
        r is Some <==> declares_name(line@),
        r matches Some(n) ==> n@ == declared_name(line@, include_brackets),
{
    let cs = chars_of(line);
    if cs.len() == 0 || cs[0] != '[' {
        return None;
    }
    let close = find_from(&cs, ']', 0);
    if close == cs.len() {
        assert(!line@.contains(']'));
        return None;
    }
    assert(line@[close as int] == ']');
    if include_brackets {
        let n = string_of_range(&cs, 0, close + 1);
        assert(n@ =~= line@.take(close + 1));
        Some(n)
    } else {
        Some(string_of_range(&cs, 1, close))
    }
}

/// Adds to `names`, in order, each name that `lines` declare and `names` lacks.
fn add_line_names(names: &mut Vec<String>, lines: &Vec<String>, include_brackets: bool)
    ensures
        final(names).deep_view() == names_with_lines(
            old(names).deep_view(),
            lines.deep_view(),
            include_brackets,
        ),
{
    let ghost dv = lines.deep_view();
    let mut i: usize = 0;
    while i < lines.len()
        invariant
            i <= lines@.len(),
            dv == lines.deep_view(),
            names.deep_view() == names_with_lines(
                old(names).deep_view(),
                dv.take(i as int),
                include_brackets,
            ),
        decreases lines@.len() - i,
    {
        assert(dv.take(i + 1).drop_last() =~= dv.take(i as int));
        assert(dv[i as int] == lines[i as int]@);
        match line_name(lines[i].as_str(), include_brackets) {
            Some(name) => {
                if !contains_string(names, &name) {
                    let ghost before = names.deep_view();
                    names.push(name);
                    assert(names.deep_view() =~= before.push(declared_name(dv[i as int], include_brackets)));
                }
            },
            None => {},
        }
        i += 1;
    }
    assert(dv.take(lines@.len() as int) =~= dv);
}

/// The names that `sources` declare, each once, in the order first met; the engine's own
/// script file is passed over.
pub fn crawl_config_names(sources: &Vec<ConfigSource>, ext: &str, include_brackets: bool) -> (names: Vec<String>)
    requires
        forall|i: int| 0 <= i < sources.len() ==> source_ok(#[trigger] sources[i]@, ext@),
    ensures
        names.deep_view() == crawled_names(sources_view(sources@), include_brackets),
{
    let ghost sv = sources_view(sources@);
    let mut names: Vec<String> = Vec::new();
    let mut i: usize = 0;
    while i < sources.len()
        invariant
            i <= sources@.len(),
            sv == sources_view(sources@),
            names.deep_view() == crawled_names(sv.take(i as int), include_brackets),
        decreases sources@.len() - i,
    {
        assert(sv.take(i + 1).drop_last() =~= sv.take(i as int));
        assert(sv[i as int] == sources[i as int]@);
        let source = &sources[i];
        if !str_eq(source.path.as_str(), "./data/src/scripts/engine.rs2") {
            add_line_names(&mut names, &source.lines, include_brackets);
        }
        i += 1;
    }
    assert(sv.take(sources@.len() as int) =~= sv);
    proof {
        assert(names.deep_view() == crawled_names(sv, include_brackets));
    }
    names
}

proof fn lemma_names_with_lines_distinct(names: Seq<Seq<char>>, lines: Seq<Seq<char>>, include_brackets: bool)
    requires
        names.no_duplicates(),
    ensures
        names_with_lines(names, lines, include_brackets).no_duplicates(),
    decreases lines.len(),
{
    if lines.len() > 0 {
        lemma_names_with_lines_distinct(names, lines.drop_last(), include_brackets);
    }
}

/// The crawl gives each name once.
pub proof fn law_crawled_names_distinct(sources: Seq<SourceModel>, include_brackets: bool)
    ensures
        crawled_names(sources, include_brackets).no_duplicates(),
    decreases sources.len(),
{
    if sources.len() > 0 {
        law_crawled_names_distinct(sources.drop_last(), include_brackets);
        let before = crawled_names(sources.drop_last(), include_brackets);
        if crawled_source(sources.last()) {
            lemma_names_with_lines_distinct(before, sources.last().lines, include_brackets);
        }
    }
}

} // verus!
