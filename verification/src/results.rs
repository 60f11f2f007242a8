//! The result aggregator: a mapping from filename to its ordered list of
//! (1-based line number, matched text) hits, kept in discovery order.

use vstd::prelude::*;
use crate::text::str_eq;

verus! {

/// The mathematical shape of one file's hits: (line number, text).
pub open spec fn view_hits(h: Seq<(usize, String)>) -> Seq<(int, Seq<char>)> {
    h.map_values(|m: (usize, String)| (m.0 as int, m.1@))
}

/// The mathematical shape of the whole result: filename to hits, in order.
pub open spec fn view_entries(es: Seq<(String, Vec<(usize, String)>)>) -> Seq<
    (Seq<char>, Seq<(int, Seq<char>)>),
> {
    es.map_values(|e: (String, Vec<(usize, String)>)| (e.0@, view_hits(e.1@)))
}

/// Index of the first entry keyed by `name`, or `es.len()` when none is.
pub open spec fn spec_first_key_index(
    es: Seq<(Seq<char>, Seq<(int, Seq<char>)>)>,
    name: Seq<char>,
) -> int
    decreases es.len(),
{
    if es.len() == 0 {
        0
    } else if es[0].0 == name {
        0
    } else {
        1 + spec_first_key_index(es.drop_first(), name)
    }
}

pub proof fn lemma_first_key_index(es: Seq<(Seq<char>, Seq<(int, Seq<char>)>)>, name: Seq<char>)
    ensures
        0 <= spec_first_key_index(es, name) <= es.len(),
        spec_first_key_index(es, name) < es.len() ==> es[spec_first_key_index(es, name)].0
            == name,
        forall|j: int| 0 <= j < spec_first_key_index(es, name) ==> es[j].0 != name,
    decreases es.len(),
{
    if es.len() == 0 {
    } else if es[0].0 == name {
    } else {
        lemma_first_key_index(es.drop_first(), name);
        let k = spec_first_key_index(es, name);
        assert forall|j: int| 0 <= j < k implies es[j].0 != name by {
            if j > 0 {
                assert(es.drop_first()[j - 1] == es[j]);
            }
        }
        if k < es.len() {
            assert(es.drop_first()[k - 1] == es[k]);
        }
    }
}

pub proof fn lemma_first_key_index_unique(
    es: Seq<(Seq<char>, Seq<(int, Seq<char>)>)>,
    name: Seq<char>,
    i: int,
)
    requires
        0 <= i <= es.len(),
        i < es.len() ==> es[i].0 == name,
        forall|j: int| 0 <= j < i ==> es[j].0 != name,
    ensures
        spec_first_key_index(es, name) == i,
    decreases es.len(),
{
    if es.len() == 0 {
    } else if es[0].0 == name {
        assert(i == 0);
    } else {
        assert(i > 0);
        assert forall|j: int| 0 <= j < i - 1 implies es.drop_first()[j].0 != name by {
            assert(es.drop_first()[j] == es[j + 1]);
        }
        if i - 1 < es.len() - 1 {
            assert(es.drop_first()[i - 1] == es[i]);
        }
        lemma_first_key_index_unique(es.drop_first(), name, i - 1);
    }
}

/// The hits recorded under `name`, or `None` when the file never appears —
/// absence means zero matches.
pub open spec fn spec_lookup(
    es: Seq<(Seq<char>, Seq<(int, Seq<char>)>)>,
    name: Seq<char>,
) -> Option<Seq<(int, Seq<char>)>>
    decreases es.len(),
{
    if es.len() == 0 {
        None
    } else if es[0].0 == name {
        Some(es[0].1)
    } else {
        spec_lookup(es.drop_first(), name)
    }
}

/// Well-formed: filenames are unique keys, and no entry is empty.
pub open spec fn spec_wf(es: Seq<(Seq<char>, Seq<(int, Seq<char>)>)>) -> bool {
    (forall|i: int, j: int| 0 <= i < j < es.len() ==> es[i].0 != es[j].0) && (forall|i: int|
        0 <= i < es.len() ==> es[i].1.len() > 0)
}

/// Appending one file's hits: concatenated onto the existing entry for that
/// file when there is one, appended as a new entry otherwise, and dropped
/// entirely when the hit list is empty.
pub open spec fn spec_push_entry(
    es: Seq<(Seq<char>, Seq<(int, Seq<char>)>)>,
    e: (Seq<char>, Seq<(int, Seq<char>)>),
) -> Seq<(Seq<char>, Seq<(int, Seq<char>)>)> {
    if e.1.len() == 0 {
        es
    } else {
        let k = spec_first_key_index(es, e.0);
        if k < es.len() {
            es.update(k, (es[k].0, es[k].1 + e.1))
        } else {
            es.push(e)
        }
    }
}

/// Merging a partial result into an accumulator, entry by entry, left to
/// right.
pub open spec fn spec_merge(
    acc: Seq<(Seq<char>, Seq<(int, Seq<char>)>)>,
    ps: Seq<(Seq<char>, Seq<(int, Seq<char>)>)>,
) -> Seq<(Seq<char>, Seq<(int, Seq<char>)>)>
    decreases ps.len(),
{
    if ps.len() == 0 {
        acc
    } else {
        spec_push_entry(spec_merge(acc, ps.drop_last()), ps.last())
    }
}

/// Viewing hits distributes over concatenation.
pub proof fn lemma_view_hits_append(a: Seq<(usize, String)>, b: Seq<(usize, String)>)
    ensures
        view_hits(a + b) == view_hits(a) + view_hits(b),
{
    assert forall|i: int| 0 <= i < (a + b).len() implies #[trigger] view_hits(a + b)[i]
        == (view_hits(a) + view_hits(b))[i] by {
        if i < a.len() {
            assert((a + b)[i] == a[i]);
        } else {
            assert((a + b)[i] == b[i - a.len()]);
        }
    }
    assert(view_hits(a + b) =~= view_hits(a) + view_hits(b));
}

/// Looking a name up in `es` with `e` pushed on the end.
pub proof fn lemma_lookup_push(
    es: Seq<(Seq<char>, Seq<(int, Seq<char>)>)>,
    e: (Seq<char>, Seq<(int, Seq<char>)>),
    n: Seq<char>,
)
    ensures
        spec_lookup(es.push(e), n) == if spec_lookup(es, n) is Some {
            spec_lookup(es, n)
        } else if n == e.0 {
            Some(e.1)
        } else {
            None
        },
    decreases es.len(),
{
    if es.len() == 0 {
        assert(es.push(e)[0] == e);
        assert(es.push(e).drop_first() =~= Seq::empty());
    } else {
        assert(es.push(e)[0] == es[0]);
        assert(es.push(e).drop_first() =~= es.drop_first().push(e));
        lemma_lookup_push(es.drop_first(), e, n);
    }
}

/// Looking a name up after an update at the first index keyed by that name.
pub proof fn lemma_lookup_update(
    es: Seq<(Seq<char>, Seq<(int, Seq<char>)>)>,
    k: int,
    v: Seq<(int, Seq<char>)>,
    n: Seq<char>,
)
    requires
        0 <= k < es.len(),
        forall|j: int| 0 <= j < k ==> es[j].0 != es[k].0,
    ensures
        spec_lookup(es.update(k, (es[k].0, v)), n) == if n == es[k].0 {
            Some(v)
        } else {
            spec_lookup(es, n)
        },
    decreases es.len(),
{
    let up = es.update(k, (es[k].0, v));
    if k == 0 {
        assert(up[0] == (es[0].0, v));
        if n != es[0].0 {
            assert(up.drop_first() =~= es.drop_first());
        }
    } else {
        assert(up[0] == es[0]);
        assert(up.drop_first() =~= es.drop_first().update(k - 1, (es[k].0, v)));
        assert(es.drop_first()[k - 1] == es[k]);
        assert forall|j: int| 0 <= j < k - 1 implies #[trigger] es.drop_first()[j].0
            != es.drop_first()[k - 1].0 by {
            assert(es.drop_first()[j] == es[j + 1]);
        }
        lemma_lookup_update(es.drop_first(), k - 1, v, n);
    }
}

/// `spec_first_key_index` and `spec_lookup` agree.
pub proof fn lemma_lookup_at_first_key_index(
    es: Seq<(Seq<char>, Seq<(int, Seq<char>)>)>,
    name: Seq<char>,
)
    ensures
        spec_lookup(es, name) == if spec_first_key_index(es, name) < es.len() {
            Some(es[spec_first_key_index(es, name)].1)
        } else {
            None
        },
    decreases es.len(),
{
    if es.len() == 0 {
    } else if es[0].0 == name {
    } else {
        lemma_lookup_at_first_key_index(es.drop_first(), name);
        lemma_first_key_index(es, name);
        lemma_first_key_index(es.drop_first(), name);
        if spec_first_key_index(es, name) < es.len() {
            assert(es.drop_first()[spec_first_key_index(es.drop_first(), name)] == es[
                spec_first_key_index(es, name)]);
        }
    }
}

/// What `spec_push_entry` does to every lookup: the file it names gains
/// exactly its hits, concatenated after any it already had; every other
/// file is untouched.
pub proof fn lemma_push_entry_lookup(
    es: Seq<(Seq<char>, Seq<(int, Seq<char>)>)>,
    e: (Seq<char>, Seq<(int, Seq<char>)>),
    n: Seq<char>,
)
    ensures
        spec_lookup(spec_push_entry(es, e), n) == if n == e.0 && e.1.len() > 0 {
            match spec_lookup(es, e.0) {
                Some(h) => Some(h + e.1),
                None => Some(e.1),
            }
        } else {
            spec_lookup(es, n)
        },
{
    if e.1.len() == 0 {
    } else {
        let k = spec_first_key_index(es, e.0);
        lemma_first_key_index(es, e.0);
        lemma_lookup_at_first_key_index(es, e.0);
        if k < es.len() {
            lemma_lookup_update(es, k, es[k].1 + e.1, n);
        } else {
            lemma_lookup_push(es, e, n);
        }
    }
}

/// `spec_push_entry` keeps the result well-formed.
pub proof fn lemma_push_entry_wf(
    es: Seq<(Seq<char>, Seq<(int, Seq<char>)>)>,
    e: (Seq<char>, Seq<(int, Seq<char>)>),
)
    requires
        spec_wf(es),
    ensures
        spec_wf(spec_push_entry(es, e)),
{
    if e.1.len() > 0 {
        lemma_first_key_index(es, e.0);
    }
}

/// Prefixes of a well-formed result are well-formed.
pub proof fn lemma_wf_drop_last(es: Seq<(Seq<char>, Seq<(int, Seq<char>)>)>)
    requires
        spec_wf(es),
        es.len() > 0,
    ensures
        spec_wf(es.drop_last()),
{
}

/// `spec_merge` keeps the accumulator well-formed.
pub proof fn lemma_merge_wf(
    acc: Seq<(Seq<char>, Seq<(int, Seq<char>)>)>,
    ps: Seq<(Seq<char>, Seq<(int, Seq<char>)>)>,
)
    requires
        spec_wf(acc),
    ensures
        spec_wf(spec_merge(acc, ps)),
    decreases ps.len(),
{
    if ps.len() > 0 {
        lemma_merge_wf(acc, ps.drop_last());
        lemma_push_entry_wf(spec_merge(acc, ps.drop_last()), ps.last());
    }
}

/// The aggregator's law: merging concatenates per file. After a merge,
/// a file's hits are those it had in the accumulator followed by those in
/// the partial result, and a file absent from both stays absent.
pub proof fn lemma_merge_lookup(
    acc: Seq<(Seq<char>, Seq<(int, Seq<char>)>)>,
    ps: Seq<(Seq<char>, Seq<(int, Seq<char>)>)>,
    n: Seq<char>,
)
    requires
        spec_wf(ps),
    ensures
        spec_lookup(spec_merge(acc, ps), n) == match (spec_lookup(acc, n), spec_lookup(ps, n)) {
            (Some(a), Some(b)) => Some(a + b),
            (Some(a), None) => Some(a),
            (None, Some(b)) => Some(b),
            (None, None) => None,
        },
    decreases ps.len(),
{
    if ps.len() == 0 {
    } else {
        let e = ps.last();
        let rest = ps.drop_last();
        lemma_wf_drop_last(ps);
        lemma_merge_lookup(acc, rest, n);
        lemma_push_entry_lookup(spec_merge(acc, rest), e, n);
        assert(rest.push(e) =~= ps);
        lemma_lookup_push(rest, e, n);
        if n == e.0 {
            // the keys of `ps` are unique, so `rest` never holds `e.0`
            lemma_first_key_index(rest, n);
            lemma_lookup_at_first_key_index(rest, n);
            if spec_first_key_index(rest, n) < rest.len() {
                assert(ps[spec_first_key_index(rest, n)].0 == ps[ps.len() - 1].0);
            }
        }
    }
}

/// The aggregated search result: one entry per file that had matches.
#[derive(Debug)]
pub struct SearchResult {
    entries: Vec<(String, Vec<(usize, String)>)>,
}

impl View for SearchResult {
    type V = Seq<(Seq<char>, Seq<(int, Seq<char>)>)>;

    closed spec fn view(&self) -> Seq<(Seq<char>, Seq<(int, Seq<char>)>)> {
        view_entries(self.entries@)
    }
}

impl SearchResult {
    /// An empty result.
    pub fn new() -> (r: Self)
        ensures
            r@ == Seq::<(Seq<char>, Seq<(int, Seq<char>)>)>::empty(),
    {
        let r = SearchResult { entries: Vec::new() };
        proof {
            assert(r@ =~= Seq::<(Seq<char>, Seq<(int, Seq<char>)>)>::empty());
        }
        r
    }

    /// The entries, for callers that render or inspect the result.
    pub fn entries(&self) -> (r: &Vec<(String, Vec<(usize, String)>)>)
        ensures
            view_entries(r@) == self@,
    {
        &self.entries
    }

    /// Append one file's hits, as `spec_push_entry` describes.
    pub fn push_hits(&mut self, name: &str, hits: Vec<(usize, String)>)
        ensures
            final(self)@ == spec_push_entry(old(self)@, (name@, view_hits(hits@))),
    {
        let ghost h0: Seq<(usize, String)> = hits@;
        let mut rest = hits;
        if rest.len() == 0 {
            proof {
                assert(view_hits(h0) =~= Seq::<(int, Seq<char>)>::empty());
            }
            return;
        }
        let n = self.entries.len();
        let mut i: usize = 0;
        #[verifier::loop_isolation(false)]
        while i < n
            invariant
                self == old(self),
                n == self.entries@.len(),
                i <= n,
                rest@ == h0,
                h0.len() > 0,
                forall|k: int| 0 <= k < i ==> self@[k].0 != name@,
            decreases n - i,
        {
            if str_eq(self.entries[i].0.as_str(), name) {
                proof {
                    assert(self@[i as int].0 == name@);
                    lemma_first_key_index_unique(self@, name@, i as int);
                }
                let mut e = self.entries.remove(i);
                let ghost e0: (String, Vec<(usize, String)>) = e;
                e.1.append(&mut rest);
                self.entries.insert(i, e);
                proof {
                    let oldv = old(self)@;
                    assert(e0 == old(self).entries@[i as int]);
                    assert(e.1@ == e0.1@ + h0);
                    lemma_view_hits_append(e0.1@, h0);
                    assert(view_hits(e0.1@) == oldv[i as int].1);
                    assert(e0.0@ == oldv[i as int].0);
                    assert(self.entries@ =~= old(self).entries@.update(i as int, e));
                    assert(self@ =~= oldv.update(
                        i as int,
                        (oldv[i as int].0, oldv[i as int].1 + view_hits(h0)),
                    ));
                    assert(view_hits(h0).len() == h0.len());
                    assert(spec_first_key_index(oldv, name@) == i as int);
                    assert(self@ == spec_push_entry(oldv, (name@, view_hits(h0))));
                }
                return;
            }
            i += 1;
        }
        proof {
            lemma_first_key_index_unique(self@, name@, n as int);
        }
        self.entries.push((name.to_owned(), rest));
        proof {
            assert(self@ =~= old(self)@.push((name@, view_hits(h0))));
        }
    }

    /// Merge a partial result into this one, as `spec_merge` describes:
    /// per-file concatenation, append-safe, no deduplication.
    pub fn merge(&mut self, partial: SearchResult)
        ensures
            final(self)@ == spec_merge(old(self)@, partial@),
    {
        let mut ps = partial.entries;
        let ghost pv: Seq<(Seq<char>, Seq<(int, Seq<char>)>)> = view_entries(ps@);
        let ghost total: int = ps@.len() as int;
        proof {
            assert(pv.take(0) =~= Seq::empty());
        }
        while ps.len() > 0
            invariant
                view_entries(ps@) == pv.skip(total - ps@.len()),
                0 <= total - ps@.len() <= total == pv.len(),
                self@ == spec_merge(old(self)@, pv.take(total - ps@.len())),
            decreases ps@.len(),
        {
            let ghost done: int = total - ps@.len();
            let ghost ps0: Seq<(String, Vec<(usize, String)>)> = ps@;
            let e = ps.remove(0);
            proof {
                assert(view_entries(ps0)[0] == pv.skip(done)[0]);
                assert(pv.skip(done)[0] == pv[done]);
                assert((e.0@, view_hits(e.1@)) == pv[done]);
            }
            self.push_hits(e.0.as_str(), e.1);
            proof {
                assert(ps@ =~= ps0.drop_first());
                assert forall|l: int| 0 <= l < ps@.len() implies #[trigger] view_entries(ps@)[l]
                    == pv.skip(done + 1)[l] by {
                    assert(ps@[l] == ps0[l + 1]);
                    assert(view_entries(ps0)[l + 1] == pv.skip(done)[l + 1]);
                    assert(pv.skip(done)[l + 1] == pv[done + 1 + l]);
                    assert(pv.skip(done + 1)[l] == pv[done + 1 + l]);
                }
                assert(view_entries(ps@) =~= pv.skip(done + 1));
                assert(pv.take(done + 1).drop_last() =~= pv.take(done));
                assert(pv.take(done + 1).last() == pv[done]);
            }
        }
        proof {
            assert(pv.take(total) =~= pv);
        }
    }
}

} // verus!
