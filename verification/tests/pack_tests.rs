use rsengine::compiler::{compiler_checksum, compiler_jar_url, compiler_outdated, compiler_sha_url};
use rsengine::config_names::{config_location_ok, crawl_config_names, ConfigSource};
use rsengine::namemap::{load_file, parse_order, parse_pack, split_text, strip_carriage_returns};
use rsengine::pack_file::{PackFile, ValidatorArg};
use rsengine::symbols::script_symbols;

fn lines(v: &[&str]) -> Vec<String> {
    v.iter().map(|s| s.to_string()).collect()
}

fn loaded() -> PackFile {
    let mut pack = PackFile::new("script".to_string());
    pack.load(Some(lines(&["1=alpha", "# comment", "", "3=gamma=extra", "1=beta", "x=1"])));
    pack
}

#[test]
fn load_keeps_last_name_per_id() {
    let pack = loaded();
    assert_eq!(pack.pack_type, "script");
    assert_eq!(pack.get_by_id(1), "beta");
    assert_eq!(pack.get_by_id(3), "gamma");
    assert_eq!(pack.get_by_id(2), "");
    assert_eq!(pack.get_by_name("gamma"), 3);
    assert_eq!(pack.get_by_name("alpha"), -1);
}

#[test]
fn register_needs_refresh_to_be_found_by_name() {
    let mut pack = loaded();
    pack.register(7, "delta".to_string());
    assert_eq!(pack.get_by_id(7), "delta");
    assert_eq!(pack.get_by_name("delta"), -1);
    pack.refresh_names();
    assert_eq!(pack.get_by_name("delta"), 7);
}

#[test]
fn regenerate_adds_missing_names_after_the_largest_id() {
    let mut pack = loaded();
    pack.regenerate(&lines(&["[a]", "beta", "[c]"]));
    assert_eq!(pack.get_by_name("[a]"), 4);
    assert_eq!(pack.get_by_name("[c]"), 5);
    assert_eq!(pack.get_by_name("beta"), 1);
    pack.regenerate(&lines(&["[d]"]));
    assert_eq!(pack.get_by_name("[d]"), 6);
}

#[test]
fn missing_file_empties_entries_only() {
    let mut pack = loaded();
    pack.load(None);
    assert_eq!(pack.get_by_id(1), "");
    assert_eq!(pack.get_by_name("beta"), -1);
    let _arg = ValidatorArg;
}

#[test]
fn empty_pack() {
    let pack = PackFile::new("obj".to_string());
    assert_eq!(pack.get_by_id(0), "");
    assert_eq!(pack.get_by_name("x"), -1);
}

#[test]
fn text_is_split_into_lines() {
    assert_eq!(strip_carriage_returns("a\r\nb\r"), "a\nb");
    assert_eq!(load_file("a\r\nb\n"), lines(&["a", "b", ""]));
    assert_eq!(load_file(""), lines(&[""]));
    assert_eq!(split_text("x=y=z", '='), lines(&["x", "y", "z"]));
}

#[test]
fn order_file_numbers() {
    assert_eq!(
        parse_order("1\n-2\n+3\nx\n\n99999999999\n-2147483648\n2147483648\n-\n"),
        vec![1, -2, 3, -2147483648]
    );
}

#[test]
fn name_list_by_id() {
    assert_eq!(parse_pack("0=zero\n2=two=x\nbad\n+1=one\n"), lines(&["zero", "one", "two"]));
    assert_eq!(parse_pack(""), Vec::<String>::new());
    assert_eq!(parse_pack("3=c\n-1=x\n"), lines(&["", "", "", "c"]));
}

fn source(path: &str, file_dir: &str, content: &[&str]) -> ConfigSource {
    ConfigSource {
        path: path.to_string(),
        file_dir: file_dir.to_string(),
        parent_dir: "src".to_string(),
        lines: lines(content),
    }
}

#[test]
fn config_names_are_collected_once() {
    let sources = vec![
        source("./data/src/scripts/engine.rs2", "scripts", &["[skipme]"]),
        source("./data/src/scripts/a.rs2", "scripts", &["[proc,one]", "text", "[proc,two] extra", "[proc,one]", "[open"]),
    ];
    assert_eq!(crawl_config_names(&sources, ".rs2", true), lines(&["[proc,one]", "[proc,two]"]));
    assert_eq!(crawl_config_names(&sources, ".rs2", false), lines(&["proc,one", "proc,two"]));
}

#[test]
fn config_locations() {
    assert!(config_location_ok(".rs2", "scripts", "x"));
    assert!(config_location_ok(".rs2", "area", "scripts"));
    assert!(!config_location_ok(".rs2", "other", "x"));
    assert!(config_location_ok(".obj", "configs", "x"));
    assert!(!config_location_ok(".obj", "a", "b"));
    assert!(config_location_ok(".flo", "a", "b"));
    assert!(config_location_ok(".obj", "_unpack", "b"));
}

#[test]
fn symbol_table() {
    assert_eq!(script_symbols(&lines(&["a", "", "c"])), "0\ta\n2\tc\n");
    assert_eq!(script_symbols(&Vec::new()), "");
}

#[test]
fn compiler_checksums() {
    let sum = compiler_checksum(b"abc");
    assert_eq!(sum, "ba7816bf8f01cfea414140de5dae2223b00361a396177a9cb410ff61f20015ad");
    let published = format!("{}  RuneScriptCompiler.jar\n", sum);
    assert!(!compiler_outdated(&sum, &published));
    let other = compiler_checksum(b"abd");
    assert!(compiler_outdated(&other, &published));
    assert_eq!(
        compiler_sha_url(),
        "https://github.com/LostCityRS/RuneScriptKt/releases/download/22/RuneScriptCompiler.jar.sha256"
    );
    assert_eq!(
        compiler_jar_url(),
        "https://github.com/LostCityRS/RuneScriptKt/releases/download/22/RuneScriptCompiler.jar"
    );
}

#[test]
fn save_text_lists_entries_by_id() {
    let mut pack = loaded();
    pack.register(0, "zero".to_string());
    assert_eq!(pack.save_text(), "0=zero\n1=beta\n3=gamma\n");
    assert_eq!(PackFile::new("x".to_string()).save_text(), "\n");
    assert_eq!(pack.next_id(), 4);
}

#[test]
fn saved_text_loads_back() {
    let mut pack = loaded();
    pack.register(10, "ten".to_string());
    let text = pack.save_text();
    let mut again = PackFile::new("script".to_string());
    again.load(Some(load_file(&text)));
    for id in 0..12 {
        assert_eq!(again.get_by_id(id), pack.get_by_id(id));
    }
    assert_eq!(again.get_by_name("ten"), 10);
    assert_eq!(again.next_id(), 11);
}
