//! Language resolution and the ignore filter.

use vstd::prelude::*;
use crate::constants::{
    CPP_CLASS_QUERY, CPP_FUNCTION_QUERY, CPP_STRUCT_QUERY, PYTHON_CLASS_QUERY,
    PYTHON_FUNCTION_QUERY, RUST_ENUM_QUERY, RUST_FUNCTION_QUERY, RUST_IDENTIFIER_QUERY,
    RUST_STRUCT_QUERY,
};
use crate::text::{
    spec_contains, spec_starts_with, str_contains, str_eq, str_starts_with, view_strings,
};

verus! {

/// The language a search is scoped to. `Any` is the default and disables
/// grammar-based search: files are treated as raw text.
#[derive(Debug, Clone, Copy, PartialEq, Eq, Structural)]
pub enum Lang {
    C,
    Cpp,
    Python,
    Rust,
    Any,
}

impl Default for Lang {
    fn default() -> (r: Self)
        ensures
            r == Lang::Any,
    {
        Lang::Any
    }
}

impl core::str::FromStr for Lang {
    type Err = ();

    fn from_str(s: &str) -> Result<Self, Self::Err> {
        Ok(obtain_lang(s))
    }
}

/// The language an identifier resolves to; every unrecognized identifier
/// degrades to `Any` rather than failing.
pub open spec fn spec_obtain_lang(s: Seq<char>) -> Lang {
    if s == "c"@ || s == "cpp"@ || s == "cc"@ || s == "cxx"@ {
        Lang::Cpp
    } else if s == "python"@ || s == "Python"@ || s == "py"@ {
        Lang::Python
    } else if s == "rust"@ || s == "rs"@ {
        Lang::Rust
    } else {
        Lang::Any
    }
}

/// Resolve a language identifier; unrecognized identifiers yield `Lang::Any`.
pub fn obtain_lang(lang: &str) -> (r: Lang)
    ensures
        r == spec_obtain_lang(lang@),
{
    if str_eq(lang, "c") || str_eq(lang, "cpp") || str_eq(lang, "cc") || str_eq(lang, "cxx") {
        Lang::Cpp
    } else if str_eq(lang, "python") || str_eq(lang, "Python") || str_eq(lang, "py") {
        Lang::Python
    } else if str_eq(lang, "rust") || str_eq(lang, "rs") {
        Lang::Rust
    } else {
        Lang::Any
    }
}

/// The file extensions recognized for each language; empty for `Any`.
pub open spec fn spec_extensions(lang: Lang) -> Seq<Seq<char>> {
    match lang {
        Lang::Cpp | Lang::C => seq!["cpp"@, "c"@, "cc"@, "cxx"@],
        Lang::Python => seq!["py"@],
        Lang::Rust => seq!["rs"@, "rust"@],
        Lang::Any => Seq::empty(),
    }
}

/// The structural query templates for each language, in the order they are
/// run; empty for `Any`.
pub open spec fn spec_queries(lang: Lang) -> Seq<Seq<char>> {
    match lang {
        Lang::Cpp | Lang::C => seq![
            CPP_FUNCTION_QUERY@,
            CPP_STRUCT_QUERY@,
            CPP_CLASS_QUERY@,
        ],
        Lang::Python => seq![PYTHON_FUNCTION_QUERY@, PYTHON_CLASS_QUERY@],
        Lang::Rust => seq![
            RUST_FUNCTION_QUERY@,
            RUST_STRUCT_QUERY@,
            RUST_ENUM_QUERY@,
            RUST_IDENTIFIER_QUERY@,
        ],
        Lang::Any => Seq::empty(),
    }
}

impl Lang {
    /// The valid extensions for this language.
    pub fn valid_extensions(&self) -> (r: Vec<&'static str>)
        ensures
            r@.len() == spec_extensions(*self).len(),
            forall|i: int| 0 <= i < r@.len() ==> r@[i]@ == spec_extensions(*self)[i],
    {
        match self {
            Lang::Cpp | Lang::C => {
                let mut v: Vec<&'static str> = Vec::new();
                v.push("cpp");
                v.push("c");
                v.push("cc");
                v.push("cxx");
                v
            },
            Lang::Python => {
                let mut v: Vec<&'static str> = Vec::new();
                v.push("py");
                v
            },
            Lang::Rust => {
                let mut v: Vec<&'static str> = Vec::new();
                v.push("rs");
                v.push("rust");
                v
            },
            Lang::Any => Vec::new(),
        }
    }
}

/// The query templates for the language, in the order they are run.
pub fn get_query(lang: &Lang) -> (r: Vec<&'static str>)
    ensures
        r@.len() == spec_queries(*lang).len(),
        forall|i: int| 0 <= i < r@.len() ==> r@[i]@ == spec_queries(*lang)[i],
{
    match lang {
        Lang::Cpp | Lang::C => {
            let mut v: Vec<&'static str> = Vec::new();
            v.push(CPP_FUNCTION_QUERY);
            v.push(CPP_STRUCT_QUERY);
            v.push(CPP_CLASS_QUERY);
            v
        },
        Lang::Python => {
            let mut v: Vec<&'static str> = Vec::new();
            v.push(PYTHON_FUNCTION_QUERY);
            v.push(PYTHON_CLASS_QUERY);
            v
        },
        Lang::Rust => {
            let mut v: Vec<&'static str> = Vec::new();
            v.push(RUST_FUNCTION_QUERY);
            v.push(RUST_STRUCT_QUERY);
            v.push(RUST_ENUM_QUERY);
            v.push(RUST_IDENTIFIER_QUERY);
            v
        },
        Lang::Any => Vec::new(),
    }
}

/// A path is relative when it does not start from the filesystem root;
/// paths use `/` as their separator.
pub open spec fn spec_is_relative(p: Seq<char>) -> bool {
    !(p.len() > 0 && p[0] == '/')
}

/// A relative path lacking the leading `./` marker gets it prepended;
/// every other path is unchanged.
pub open spec fn spec_normalize_path(p: Seq<char>) -> Seq<char> {
    if spec_is_relative(p) && !spec_starts_with(p, "./"@) {
        "./"@ + p
    } else {
        p
    }
}

/// Normalization changes nothing the second time.
pub proof fn lemma_normalize_idempotent(p: Seq<char>)
    ensures
        spec_normalize_path(spec_normalize_path(p)) == spec_normalize_path(p),
{
    reveal_strlit("./");
    let q = spec_normalize_path(p);
    if q != p {
        assert(q == "./"@ + p);
        assert(q.subrange(0, 2) =~= "./"@);
        assert(spec_starts_with(q, "./"@));
    }
}

/// Membership in the ignore set: an exact, whole-string match.
pub open spec fn spec_is_ignored(ig: Seq<Seq<char>>, p: Seq<char>) -> bool {
    exists|i: int| 0 <= i < ig.len() && ig[i] == p
}

/// The trio of VCS metadata names that `ignore_git` appends.
pub open spec fn spec_vcs_defaults() -> Seq<Seq<char>> {
    seq![".git"@, ".gitignore"@, ".gitattributes"@]
}

/// Appending the VCS defaults twice ignores exactly the same paths as
/// appending them once.
pub proof fn lemma_ignore_git_idempotent(ig: Seq<Seq<char>>, p: Seq<char>)
    ensures
        spec_is_ignored(ig + spec_vcs_defaults() + spec_vcs_defaults(), p) == spec_is_ignored(
            ig + spec_vcs_defaults(),
            p,
        ),
{
    let a = ig + spec_vcs_defaults();
    let b = a + spec_vcs_defaults();
    if spec_is_ignored(b, p) {
        let i = choose|i: int| 0 <= i < b.len() && b[i] == p;
        if i < a.len() {
            assert(a[i] == p);
        } else {
            assert(b[i] == spec_vcs_defaults()[i - a.len()]);
            assert(a[ig.len() + (i - a.len())] == p);
        }
    }
    if spec_is_ignored(a, p) {
        let i = choose|i: int| 0 <= i < a.len() && a[i] == p;
        assert(b[i] == p);
    }
}

/// An entry with `git` somewhere in it loses its last character; the rest
/// are unchanged.
pub open spec fn spec_exclude_git_entry(p: Seq<char>) -> Seq<char> {
    if spec_contains(p, "git"@) {
        p.drop_last()
    } else {
        p
    }
}

/// The set of paths excluded from traversal and search.
#[derive(Debug)]
pub struct IgnoreDir {
    dir_and_files: Vec<String>,
}

impl View for IgnoreDir {
    type V = Seq<Seq<char>>;

    closed spec fn view(&self) -> Seq<Seq<char>> {
        view_strings(self.dir_and_files@)
    }
}

impl Default for IgnoreDir {
    fn default() -> (r: Self)
        ensures
            r@ == Seq::<Seq<char>>::empty(),
    {
        let r = IgnoreDir { dir_and_files: Vec::new() };
        proof {
            assert(r@ =~= Seq::<Seq<char>>::empty());
        }
        r
    }
}

/// Is the path relative, i.e. does it not start with `/`?
fn is_relative_path(p: &str) -> (r: bool)
    ensures
        r == spec_is_relative(p@),
{
    if p.unicode_len() == 0 {
        true
    } else {
        p.get_char(0) != '/'
    }
}

impl IgnoreDir {
    /// An empty ignore set.
    pub fn new() -> (r: Self)
        ensures
            r@ == Seq::<Seq<char>>::empty(),
    {
        Default::default()
    }

    /// Replace the ignore set.
    pub fn set_ignores(&mut self, dir_and_files: Vec<String>)
        ensures
            final(self)@ == view_strings(dir_and_files@),
    {
        self.dir_and_files = dir_and_files;
    }

    /// Prepend `./` to every relative entry that lacks it, so that
    /// membership tests against walker-produced paths are exact string
    /// comparisons.
    pub fn relative_dir_fix(&mut self)
        ensures
            final(self)@.len() == old(self)@.len(),
            forall|i: int|
                0 <= i < final(self)@.len() ==> final(self)@[i] == spec_normalize_path(
                    old(self)@[i],
                ),
    {
        let n = self.dir_and_files.len();
        let mut fixed: Vec<String> = Vec::new();
        let mut i: usize = 0;
        while i < n
            invariant
                n == self.dir_and_files@.len(),
                self@ == old(self)@,
                i <= n,
                fixed@.len() == i,
                forall|k: int|
                    0 <= k < i ==> fixed@[k as int]@ == spec_normalize_path(old(self)@[k]),
            decreases n - i,
        {
            let e = &self.dir_and_files[i];
            proof {
                assert(old(self)@[i as int] == e@);
            }
            if is_relative_path(e.as_str()) && !str_starts_with(e.as_str(), "./") {
                let mut ne = "./".to_owned();
                ne.append(e.as_str());
                fixed.push(ne);
            } else {
                fixed.push(e.clone());
            }
            i += 1;
        }
        self.dir_and_files = fixed;
        proof {
            assert forall|i: int| 0 <= i < final(self)@.len() implies final(self)@[i]
                == spec_normalize_path(old(self)@[i]) by {
                assert(final(self)@[i] == fixed@[i]@);
            }
        }
    }

    /// Exact membership test against the set.
    pub fn is_ignore(&self, dir: &str) -> (r: bool)
        ensures
            r == spec_is_ignored(self@, dir@),
    {
        let n = self.dir_and_files.len();
        let mut i: usize = 0;
        while i < n
            invariant
                n == self.dir_and_files@.len(),
                i <= n,
                forall|k: int| 0 <= k < i ==> self@[k] != dir@,
            decreases n - i,
        {
            if str_eq(self.dir_and_files[i].as_str(), dir) {
                proof {
                    assert(self@[i as int] == dir@);
                }
                return true;
            }
            i += 1;
        }
        false
    }

    /// Drop the last character of every entry that holds `git` somewhere
    /// in it.
    pub fn exclude_git(&mut self)
        ensures
            final(self)@.len() == old(self)@.len(),
            forall|i: int|
                0 <= i < final(self)@.len() ==> final(self)@[i] == spec_exclude_git_entry(
                    old(self)@[i],
                ),
    {
        let n = self.dir_and_files.len();
        let mut fixed: Vec<String> = Vec::new();
        let mut i: usize = 0;
        while i < n
            invariant
                n == self.dir_and_files@.len(),
                self@ == old(self)@,
                i <= n,
                fixed@.len() == i,
                forall|k: int|
                    0 <= k < i ==> fixed@[k as int]@ == spec_exclude_git_entry(old(self)@[k]),
            decreases n - i,
        {
            let e = &self.dir_and_files[i];
            proof {
                assert(old(self)@[i as int] == e@);
            }
            if str_contains(e.as_str(), "git") {
                let l = e.as_str().unicode_len();
                proof {
                    reveal_strlit("git");
                    let at = choose|at: int|
                        crate::text::spec_contains_at(e@, "git"@, at);
                    assert(at + 3 <= e@.len());
                    assert(e@.subrange(0, l - 1) =~= e@.drop_last());
                }
                fixed.push(e.as_str().substring_char(0, l - 1).to_owned());
            } else {
                fixed.push(e.clone());
            }
            i += 1;
        }
        self.dir_and_files = fixed;
        proof {
            assert forall|i: int| 0 <= i < final(self)@.len() implies final(self)@[i]
                == spec_exclude_git_entry(old(self)@[i]) by {
                assert(final(self)@[i] == fixed@[i]@);
            }
        }
    }

    /// Append the VCS metadata defaults, without deduplication; duplicates
    /// are harmless because membership is a set-semantics check.
    pub fn ignore_git(&mut self)
        ensures
            final(self)@ == old(self)@ + spec_vcs_defaults(),
    {
        self.dir_and_files.push(".git".to_owned());
        self.dir_and_files.push(".gitignore".to_owned());
        self.dir_and_files.push(".gitattributes".to_owned());
        proof {
            assert(final(self)@ =~= old(self)@ + spec_vcs_defaults());
        }
    }
}

} // verus!
