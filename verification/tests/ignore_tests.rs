use search_code::options::IgnoreDir;

fn ignores(entries: &[&str]) -> IgnoreDir {
    let mut ig = IgnoreDir::new();
    ig.set_ignores(entries.iter().map(|e| e.to_string()).collect());
    ig
}

#[test]
fn new_set_is_empty() {
    let ig = IgnoreDir::new();
    assert!(!ig.is_ignore(""));
    assert!(!ig.is_ignore(".git"));
}

#[test]
fn is_ignore_is_exact_membership() {
    let ig = ignores(&["./build", "/tmp/x"]);
    assert!(ig.is_ignore("./build"));
    assert!(ig.is_ignore("/tmp/x"));
    assert!(!ig.is_ignore("build"));
    assert!(!ig.is_ignore("./build/sub"));
}

#[test]
fn relative_dir_fix_prepends_marker() {
    let mut ig = ignores(&["build", "/abs/path", "./already"]);
    ig.relative_dir_fix();
    assert!(ig.is_ignore("./build"));
    assert!(!ig.is_ignore("build"));
    assert!(ig.is_ignore("/abs/path"));
    assert!(ig.is_ignore("./already"));
}

#[test]
fn relative_dir_fix_is_idempotent() {
    let mut once = ignores(&["build", "/abs", "./x", ""]);
    once.relative_dir_fix();
    let mut twice = ignores(&["build", "/abs", "./x", ""]);
    twice.relative_dir_fix();
    twice.relative_dir_fix();
    for probe in ["./build", "build", "/abs", "./x", "./", "", "./abs"] {
        assert_eq!(once.is_ignore(probe), twice.is_ignore(probe));
    }
}

#[test]
fn ignore_git_appends_vcs_defaults() {
    let mut ig = ignores(&["./build"]);
    ig.ignore_git();
    assert!(ig.is_ignore(".git"));
    assert!(ig.is_ignore(".gitignore"));
    assert!(ig.is_ignore(".gitattributes"));
    assert!(ig.is_ignore("./build"));
}

#[test]
fn ignore_git_twice_changes_no_outcome() {
    let mut once = ignores(&["./src"]);
    once.ignore_git();
    let mut twice = ignores(&["./src"]);
    twice.ignore_git();
    twice.ignore_git();
    for probe in [".git", ".gitignore", ".gitattributes", "./src", "other", ""] {
        assert_eq!(once.is_ignore(probe), twice.is_ignore(probe));
    }
}

#[test]
fn exclude_git_pops_entries_holding_git() {
    let mut ig = ignores(&["mygit", "gitx", "foo"]);
    ig.exclude_git();
    assert!(ig.is_ignore("mygi"));
    assert!(!ig.is_ignore("mygit"));
    assert!(ig.is_ignore("git"));
    assert!(!ig.is_ignore("gitx"));
    assert!(ig.is_ignore("foo"));
}
