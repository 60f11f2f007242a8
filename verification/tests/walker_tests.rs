use search_code::options::{IgnoreDir, Lang};
use search_code::walker::{extension_of, scan, select_files, should_search, FsTree};

fn file(path: &str) -> FsTree {
    FsTree::File { path: path.to_string() }
}

fn dir(path: &str, children: Vec<FsTree>) -> FsTree {
    FsTree::Dir { path: path.to_string(), children }
}

fn ignores(entries: &[&str]) -> IgnoreDir {
    let mut ig = IgnoreDir::new();
    ig.set_ignores(entries.iter().map(|e| e.to_string()).collect());
    ig.relative_dir_fix();
    ig
}

#[test]
fn scan_lists_files_in_discovery_order() {
    let tree = dir(
        ".",
        vec![file("./a.rs"), dir("./sub", vec![file("./sub/b.rs")]), file("./c.txt")],
    );
    let ig = IgnoreDir::new();
    let mut paths: Vec<String> = Vec::new();
    scan(&tree, &ig, &mut paths);
    assert_eq!(paths, vec!["./a.rs", "./sub/b.rs", "./c.txt"]);
}

#[test]
fn scan_of_an_ignored_root_yields_nothing() {
    let tree = dir("./build", vec![file("./build/a.rs"), file("./build/b.rs")]);
    let ig = ignores(&["build"]);
    let mut paths: Vec<String> = Vec::new();
    scan(&tree, &ig, &mut paths);
    assert_eq!(paths, Vec::<String>::new());
}

#[test]
fn scan_of_a_single_file_root_appends_it() {
    let tree = file("./only.py");
    let ig = IgnoreDir::new();
    let mut paths: Vec<String> = Vec::new();
    scan(&tree, &ig, &mut paths);
    assert_eq!(paths, vec!["./only.py"]);
}

#[test]
fn ignoring_build_prunes_only_that_exact_path() {
    let tree = dir(
        ".",
        vec![
            dir("./build", vec![file("./build/a.rs")]),
            dir("./src", vec![dir("./src/build", vec![file("./src/build/b.rs")])]),
            file("./c.rs"),
        ],
    );
    let ig = ignores(&["build"]);
    let mut paths: Vec<String> = Vec::new();
    scan(&tree, &ig, &mut paths);
    assert_eq!(paths, vec!["./src/build/b.rs", "./c.rs"]);
}

#[test]
fn ignored_file_nodes_are_skipped() {
    let tree = dir(".", vec![file("./keep.rs"), file("./drop.rs")]);
    let ig = ignores(&["drop.rs"]);
    let mut paths: Vec<String> = Vec::new();
    scan(&tree, &ig, &mut paths);
    assert_eq!(paths, vec!["./keep.rs"]);
}

#[test]
fn extension_is_the_text_after_the_final_dot() {
    assert_eq!(extension_of("a.rs"), "rs");
    assert_eq!(extension_of("./dir/archive.tar.gz"), "gz");
    assert_eq!(extension_of("trailing."), "");
    assert_eq!(extension_of("noext"), "noext");
}

#[test]
fn any_language_applies_no_extension_filter() {
    for path in ["./a.rs", "./b", "./Makefile", "./c.unknown", ""] {
        assert!(should_search(&Lang::Any, path));
    }
    let paths: Vec<String> =
        vec!["./a.rs".into(), "./b".into(), "./Makefile".into(), "./c.unknown".into()];
    let kept = select_files(&paths, &Lang::Any);
    assert_eq!(kept, paths);
}

#[test]
fn specific_language_keeps_only_its_extensions() {
    let paths: Vec<String> =
        vec!["./a.rs".into(), "./b.py".into(), "./c.cpp".into(), "./noext".into()];
    assert_eq!(select_files(&paths, &Lang::Rust), vec!["./a.rs"]);
    assert_eq!(select_files(&paths, &Lang::Python), vec!["./b.py"]);
    assert_eq!(select_files(&paths, &Lang::Cpp), vec!["./c.cpp"]);
}

#[test]
fn files_without_extension_are_skipped_for_specific_languages() {
    assert!(!should_search(&Lang::Rust, "./noext"));
    assert!(!should_search(&Lang::Rust, "./rs"));
    assert!(should_search(&Lang::Rust, "./x.rs"));
}
