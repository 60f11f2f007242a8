//! The directory walker and the extension gate, specified over a snapshot
//! of the filesystem tree.

use vstd::prelude::*;
use crate::options::{spec_extensions, spec_is_ignored, IgnoreDir, Lang};
use crate::text::{str_eq, view_strings};

verus! {

/// A snapshot of a filesystem subtree. Each node carries the full path that
/// names it, exactly as the walker reports it.
pub enum FsTree {
    File { path: String },
    Dir { path: String, children: Vec<FsTree> },
}

impl FsTree {
    /// The path naming this node.
    pub open spec fn spec_path(&self) -> Seq<char> {
        match self {
            FsTree::File { path } => path@,
            FsTree::Dir { path, .. } => path@,
        }
    }

    /// The path naming this node.
    pub fn path(&self) -> (r: &String)
        ensures
            r@ == self.spec_path(),
    {
        match self {
            FsTree::File { path } => path,
            FsTree::Dir { path, .. } => path,
        }
    }
}

/// The paths `scan` appends for one node: nothing when the node's own path
/// is ignored (the whole subtree is pruned), the path itself for a file,
/// and the children's paths in order for a directory.
pub open spec fn spec_scan(t: FsTree, ig: Seq<Seq<char>>) -> Seq<Seq<char>>
    decreases t,
{
    if spec_is_ignored(ig, t.spec_path()) {
        Seq::empty()
    } else {
        match t {
            FsTree::File { path } => seq![path@],
            FsTree::Dir { path, children } => spec_scan_all(children@, ig),
        }
    }
}

/// The concatenation of `spec_scan` over a sequence of sibling nodes.
pub open spec fn spec_scan_all(ts: Seq<FsTree>, ig: Seq<Seq<char>>) -> Seq<Seq<char>>
    decreases ts,
{
    if ts.len() == 0 {
        Seq::empty()
    } else {
        spec_scan(ts[0], ig) + spec_scan_all(ts.drop_first(), ig)
    }
}

/// Peeling the last sibling off instead of the first.
pub proof fn lemma_scan_all_snoc(ts: Seq<FsTree>, ig: Seq<Seq<char>>)
    requires
        ts.len() > 0,
    ensures
        spec_scan_all(ts, ig) == spec_scan_all(ts.drop_last(), ig) + spec_scan(ts.last(), ig),
    decreases ts.len(),
{
    if ts.len() == 1 {
        assert(ts.drop_last() =~= Seq::<FsTree>::empty());
        assert(ts.drop_first() =~= Seq::<FsTree>::empty());
        assert(spec_scan(ts[0], ig) + Seq::<Seq<char>>::empty() =~= spec_scan(ts[0], ig));
        assert(Seq::<Seq<char>>::empty() + spec_scan(ts[0], ig) =~= spec_scan(ts[0], ig));
    } else {
        lemma_scan_all_snoc(ts.drop_first(), ig);
        assert(ts.drop_first().drop_last() =~= ts.drop_last().drop_first());
        assert(ts.drop_first().last() == ts.last());
        assert(ts.drop_last()[0] == ts[0]);
        let a = spec_scan(ts[0], ig);
        let b = spec_scan_all(ts.drop_last().drop_first(), ig);
        let c = spec_scan(ts.last(), ig);
        assert(a + (b + c) =~= (a + b) + c);
    }
}

/// Walk the subtree `t`, appending every surviving file path to `pathes`
/// in discovery order. A node whose path is in the ignore set is pruned:
/// nothing under it is visited or reported.
pub fn scan(t: &FsTree, ig: &IgnoreDir, pathes: &mut Vec<String>)
    ensures
        view_strings(final(pathes)@) == view_strings(old(pathes)@) + spec_scan(*t, ig@),
        spec_is_ignored(ig@, t.spec_path()) ==> final(pathes)@ == old(pathes)@,
    decreases *t,
{
    let p = t.path();
    if ig.is_ignore(p.as_str()) {
        proof {
            assert(view_strings(pathes@) + Seq::<Seq<char>>::empty() =~= view_strings(pathes@));
        }
        return;
    }
    match t {
        FsTree::File { path } => {
            pathes.push(path.clone());
            proof {
                assert(view_strings(pathes@) =~= view_strings(old(pathes)@) + seq![path@]);
            }
        },
        FsTree::Dir { path, children } => {
            let n = children.len();
            let mut i: usize = 0;
            proof {
                assert(children@.take(0) =~= Seq::<FsTree>::empty());
                assert(view_strings(pathes@) + Seq::<Seq<char>>::empty() =~= view_strings(
                    pathes@,
                ));
            }
            #[verifier::loop_isolation(false)]
            while i < n
                invariant
                    i <= n,
                    view_strings(pathes@) == view_strings(old(pathes)@) + spec_scan_all(
                        children@.take(i as int),
                        ig@,
                    ),
                decreases n - i,
            {
                proof {
                    assert(decreases_to!(*t => *children));
                    assert(decreases_to!(*children => children@));
                    assert(decreases_to!(children@ => children@[i as int]));
                }
                scan(&children[i], ig, pathes);
                proof {
                    assert(children@.take(i + 1).drop_last() =~= children@.take(i as int));
                    assert(children@.take(i + 1).last() == children@[i as int]);
                    lemma_scan_all_snoc(children@.take(i + 1), ig@);
                    let a = view_strings(old(pathes)@);
                    let b = spec_scan_all(children@.take(i as int), ig@);
                    let c = spec_scan(children@[i as int], ig@);
                    assert((a + b) + c =~= a + (b + c));
                }
                i += 1;
            }
            proof {
                assert(children@.take(n as int) =~= children@);
            }
        },
    }
}

/// Where the extension of a path starts: just after the final `.`, or 0
/// when the path holds no `.` at all (the whole name then counts as the
/// extension).
pub open spec fn spec_ext_start(p: Seq<char>) -> int
    decreases p.len(),
{
    if p.len() == 0 {
        0
    } else if p[p.len() - 1] == '.' {
        p.len() as int
    } else {
        spec_ext_start(p.drop_last())
    }
}

/// `spec_ext_start` is the unique cut obeying these side conditions.
pub proof fn lemma_ext_start_unique(p: Seq<char>, i: int)
    requires
        0 <= i <= p.len(),
        i > 0 ==> p[i - 1] == '.',
        forall|k: int| i <= k < p.len() ==> p[k] != '.',
    ensures
        spec_ext_start(p) == i,
    decreases p.len(),
{
    if p.len() == 0 {
    } else if p[p.len() - 1] == '.' {
        assert(i == p.len());
    } else {
        assert(i < p.len());
        assert forall|k: int| i <= k < p.drop_last().len() implies p.drop_last()[k] != '.' by {
            assert(p.drop_last()[k] == p[k]);
        }
        if i > 0 {
            assert(p.drop_last()[i - 1] == p[i - 1]);
        }
        lemma_ext_start_unique(p.drop_last(), i);
    }
}

/// The substring after the final `.` of the path; the whole path when it
/// holds no `.`.
pub open spec fn spec_extension(p: Seq<char>) -> Seq<char> {
    p.skip(spec_ext_start(p))
}

/// The extension of `path`, as `spec_extension` describes.
pub fn extension_of(path: &str) -> (r: String)
    ensures
        r@ == spec_extension(path@),
{
    let l = path.unicode_len();
    let mut i: usize = l;
    while i > 0 && path.get_char(i - 1) != '.'
        invariant
            l == path@.len(),
            i <= l,
            forall|k: int| i <= k < l ==> path@[k] != '.',
        decreases i,
    {
        i -= 1;
    }
    proof {
        lemma_ext_start_unique(path@, i as int);
    }
    let r = path.substring_char(i, l).to_owned();
    proof {
        assert(path@.subrange(i as int, l as int) =~= path@.skip(i as int));
    }
    r
}

/// Whether the extension gate lets `p` through: always when the language
/// is `Any`, else only when the extension is registered for the language.
pub open spec fn spec_should_search(lang: Lang, p: Seq<char>) -> bool {
    lang == Lang::Any || spec_extensions(lang).contains(spec_extension(p))
}

/// Apply the extension gate to one path. With `Lang::Any` no filter is
/// ever applied: every path passes.
pub fn should_search(lang: &Lang, path: &str) -> (r: bool)
    ensures
        r == spec_should_search(*lang, path@),
        *lang == Lang::Any ==> r,
{
    if *lang == Lang::Any {
        return true;
    }
    let ext = extension_of(path);
    let exts = lang.valid_extensions();
    let n = exts.len();
    let mut i: usize = 0;
    while i < n
        invariant
            n == exts@.len(),
            i <= n,
            ext@ == spec_extension(path@),
            n == spec_extensions(*lang).len(),
            forall|k: int| 0 <= k < n ==> exts@[k]@ == spec_extensions(*lang)[k],
            forall|k: int| 0 <= k < i ==> spec_extensions(*lang)[k] != ext@,
        decreases n - i,
    {
        if str_eq(exts[i], ext.as_str()) {
            proof {
                assert(spec_extensions(*lang)[i as int] == ext@);
            }
            return true;
        }
        i += 1;
    }
    proof {
        assert(!spec_extensions(*lang).contains(ext@));
    }
    false
}

/// The paths of `paths` that pass the extension gate, in order.
pub open spec fn spec_select(paths: Seq<Seq<char>>, lang: Lang) -> Seq<Seq<char>>
    decreases paths.len(),
{
    if paths.len() == 0 {
        Seq::empty()
    } else {
        let rest = spec_select(paths.drop_last(), lang);
        if spec_should_search(lang, paths.last()) {
            rest.push(paths.last())
        } else {
            rest
        }
    }
}

/// Keep the paths that pass the extension gate, in order. With `Lang::Any`
/// every path is kept.
pub fn select_files(paths: &Vec<String>, lang: &Lang) -> (r: Vec<String>)
    ensures
        view_strings(r@) == spec_select(view_strings(paths@), *lang),
        *lang == Lang::Any ==> view_strings(r@) == view_strings(paths@),
{
    let ghost pv: Seq<Seq<char>> = view_strings(paths@);
    let n = paths.len();
    let mut r: Vec<String> = Vec::new();
    let mut i: usize = 0;
    proof {
        assert(pv.take(0) =~= Seq::<Seq<char>>::empty());
        assert(view_strings(r@) =~= Seq::<Seq<char>>::empty());
    }
    while i < n
        invariant
            n == paths@.len(),
            pv == view_strings(paths@),
            i <= n,
            view_strings(r@) == spec_select(pv.take(i as int), *lang),
            *lang == Lang::Any ==> view_strings(r@) == pv.take(i as int),
        decreases n - i,
    {
        let ghost r0: Seq<String> = r@;
        proof {
            assert(pv.take(i + 1).drop_last() =~= pv.take(i as int));
            assert(pv.take(i + 1).last() == pv[i as int]);
            assert(paths@[i as int]@ == pv[i as int]);
        }
        if should_search(lang, paths[i].as_str()) {
            r.push(paths[i].clone());
            proof {
                assert(view_strings(r@) =~= view_strings(r0).push(pv[i as int]));
                assert(pv.take(i as int).push(pv[i as int]) =~= pv.take(i + 1));
            }
        }
        i += 1;
    }
    proof {
        assert(pv.take(n as int) =~= pv);
    }
    r
}

} // verus!
