//! The two search strategies: a plain per-line substring scan, and a
//! grammar-aware symbol search over a parsed syntax tree.

use vstd::prelude::*;
use crate::options::{get_query, spec_queries, Lang};
use crate::parser_lang::{
    run_cpp_template, run_python_template, run_rust_template, spec_captures, spec_grammar_lang,
    SpecifyParser,
};
use crate::results::{spec_push_entry, spec_wf, view_hits, SearchResult};
use crate::text::{
    replace_placeholder, spec_contains, spec_lines, spec_replace, split_lines, str_contains,
    view_strings,
};

verus! {

/// Why a search failed.
#[derive(Debug, Clone, Copy, PartialEq, Eq, Structural)]
pub enum SearchError {
    /// Symbol search was asked of a language with no grammar.
    UnsupportedLanguage,
    /// A query template failed after key substitution: it did not compile
    /// (a key holding query or regex metacharacters can cause this), or a
    /// captured span was not valid text.
    QueryFailed,
}

/// The hits of a plain line search: for every line holding the key, the
/// 1-based line number and the unmodified line text, top to bottom.
pub open spec fn spec_line_hits(lines: Seq<Seq<char>>, key: Seq<char>) -> Seq<(int, Seq<char>)>
    decreases lines.len(),
{
    if lines.len() == 0 {
        Seq::empty()
    } else {
        let rest = spec_line_hits(lines.drop_last(), key);
        if spec_contains(lines.last(), key) {
            rest.push((lines.len() as int, lines.last()))
        } else {
            rest
        }
    }
}

/// Line numbers reported by the line search are 1-based and strictly
/// increasing within one file's hit list.
pub proof fn lemma_line_hits_one_based_increasing(lines: Seq<Seq<char>>, key: Seq<char>)
    ensures
        forall|j: int|
            0 <= j < spec_line_hits(lines, key).len() ==> 1 <= #[trigger] spec_line_hits(
                lines,
                key,
            )[j].0 <= lines.len(),
        forall|j: int, l: int|
            #![trigger spec_line_hits(lines, key)[j], spec_line_hits(lines, key)[l]]
            0 <= j < l < spec_line_hits(lines, key).len() ==> spec_line_hits(lines, key)[j].0
                < spec_line_hits(lines, key)[l].0,
    decreases lines.len(),
{
    if lines.len() > 0 {
        lemma_line_hits_one_based_increasing(lines.drop_last(), key);
        let rest = spec_line_hits(lines.drop_last(), key);
        let cur = spec_line_hits(lines, key);
        assert(lines.drop_last().len() == lines.len() - 1);
        assert forall|j: int| 0 <= j < cur.len() implies 1 <= #[trigger] cur[j].0
            <= lines.len() by {
            if j < rest.len() {
                assert(cur[j] == rest[j]);
            }
        }
        assert forall|j: int, l: int|
            #![trigger cur[j], cur[l]]
            0 <= j < l < cur.len() implies cur[j].0 < cur[l].0 by {
            assert(cur[j] == rest[j]);
            if l < rest.len() {
                assert(cur[l] == rest[l]);
            }
        }
    }
}

/// The line-search hits of `lines`, with 1-based numbering.
pub fn find_key_lines(lines: &Vec<String>, key: &str) -> (r: Vec<(usize, String)>)
    ensures
        view_hits(r@) == spec_line_hits(view_strings(lines@), key@),
{
    let ghost lv: Seq<Seq<char>> = view_strings(lines@);
    let n = lines.len();
    let mut r: Vec<(usize, String)> = Vec::new();
    let mut i: usize = 0;
    proof {
        assert(lv.take(0) =~= Seq::<Seq<char>>::empty());
        assert(view_hits(r@) =~= Seq::<(int, Seq<char>)>::empty());
    }
    while i < n
        invariant
            n == lines@.len(),
            lv == view_strings(lines@),
            i <= n,
            view_hits(r@) == spec_line_hits(lv.take(i as int), key@),
        decreases n - i,
    {
        proof {
            assert(lv.take(i + 1).drop_last() =~= lv.take(i as int));
            assert(lv.take(i + 1).last() == lv[i as int]);
            assert(lines@[i as int]@ == lv[i as int]);
        }
        let ghost r0: Seq<(usize, String)> = r@;
        if str_contains(lines[i].as_str(), key) {
            r.push((i + 1, lines[i].clone()));
            proof {
                assert(view_hits(r@) =~= view_hits(r0).push((i + 1 as int, lv[i as int])));
            }
        }
        i += 1;
    }
    proof {
        assert(lv.take(n as int) =~= lv);
    }
    r
}

/// Line search over one file's content: the file appears in the result
/// exactly when some line holds the key, and then carries every matching
/// line with its 1-based number, in order.
pub fn find_key_file(filename: &str, content: &str, key: &str) -> (r: SearchResult)
    ensures
        r@ == spec_push_entry(
            Seq::empty(),
            (filename@, spec_line_hits(spec_lines(content@), key@)),
        ),
        spec_line_hits(spec_lines(content@), key@).len() == 0 ==> r@ == Seq::<
            (Seq<char>, Seq<(int, Seq<char>)>),
        >::empty(),
        spec_line_hits(spec_lines(content@), key@).len() > 0 ==> r@ == seq![
            (filename@, spec_line_hits(spec_lines(content@), key@)),
        ],
        spec_wf(r@),
{
    let lines = split_lines(content);
    let hits = find_key_lines(&lines, key);
    let mut r = SearchResult::new();
    let ghost hv: Seq<(int, Seq<char>)> = view_hits(hits@);
    r.push_hits(filename, hits);
    proof {
        let e = (filename@, hv);
        if hv.len() > 0 {
            assert(Seq::<(Seq<char>, Seq<(int, Seq<char>)>)>::empty().push(e) =~= seq![e]);
        }
    }
    r
}

/// The capture rows shifted to 1-based numbering, texts unchanged.
pub open spec fn spec_one_based(caps: Seq<(usize, String)>) -> Seq<(int, Seq<char>)> {
    caps.map_values(|c: (usize, String)| (c.0 + 1 as int, c.1@))
}

/// Append one query's captures to the running hit list, shifting each
/// 0-based row to a 1-based line number.
fn append_one_based(hits: &mut Vec<(usize, String)>, caps: Vec<(usize, String)>)
    requires
        forall|i: int| 0 <= i < caps@.len() ==> caps@[i].0 < usize::MAX,
    ensures
        view_hits(final(hits)@) == view_hits(old(hits)@) + spec_one_based(caps@),
        (forall|m: int| 0 <= m < old(hits)@.len() ==> 1 <= #[trigger] view_hits(old(hits)@)[m].0)
            ==> (forall|m: int|
            0 <= m < final(hits)@.len() ==> 1 <= #[trigger] view_hits(final(hits)@)[m].0),
{
    let n = caps.len();
    let mut i: usize = 0;
    proof {
        assert(caps@.take(0) =~= Seq::<(usize, String)>::empty());
        assert(spec_one_based(caps@.take(0)) =~= Seq::<(int, Seq<char>)>::empty());
        assert(view_hits(hits@) + spec_one_based(caps@.take(0)) =~= view_hits(hits@));
    }
    #[verifier::loop_isolation(false)]
    while i < n
        invariant
            i <= n,
            view_hits(hits@) == view_hits(old(hits)@) + spec_one_based(caps@.take(i as int)),
        decreases n - i,
    {
        let ghost h0: Seq<(usize, String)> = hits@;
        let c = &caps[i];
        let row = c.0;
        let text = c.1.clone();
        hits.push((row + 1, text));
        proof {
            assert(view_hits(hits@) =~= view_hits(h0).push((row + 1 as int, caps@[i as int].1@)));
            assert(spec_one_based(caps@.take(i + 1)) =~= spec_one_based(caps@.take(i as int)).push(
                (caps@[i as int].0 + 1 as int, caps@[i as int].1@),
            ));
            assert(view_hits(old(hits)@) + spec_one_based(caps@.take(i + 1)) =~= (view_hits(
                old(hits)@,
            ) + spec_one_based(caps@.take(i as int))).push(
                (caps@[i as int].0 + 1 as int, caps@[i as int].1@),
            ));
        }
        i += 1;
    }
    proof {
        assert(caps@.take(n as int) =~= caps@);
        if forall|m: int| 0 <= m < old(hits)@.len() ==> 1 <= #[trigger] view_hits(old(hits)@)[m].0 {
            assert forall|m: int| 0 <= m < hits@.len() implies 1 <= #[trigger] view_hits(
                hits@,
            )[m].0 by {
                if m < old(hits)@.len() {
                    assert(view_hits(hits@)[m] == view_hits(old(hits)@)[m]);
                } else {
                    assert(view_hits(hits@)[m] == spec_one_based(caps@)[m - old(hits)@.len()]);
                }
            }
        }
    }
}

/// The captures of template `i` of the language's table, with the key
/// substituted for its placeholder, over `code`, run under the language's
/// grammar.
pub open spec fn spec_template_captures(
    lang: Lang,
    key: Seq<char>,
    code: Seq<char>,
    i: int,
) -> Option<Seq<(int, Seq<char>)>> {
    spec_captures(spec_grammar_lang(lang), spec_replace(spec_queries(lang)[i], key), code)
}

/// Every substituted template of the language compiles and runs to a
/// capture list over `code`.
pub open spec fn spec_all_templates_ok(lang: Lang, key: Seq<char>, code: Seq<char>) -> bool {
    forall|i: int|
        0 <= i < spec_queries(lang).len() ==> (#[trigger] spec_template_captures(
            lang,
            key,
            code,
            i,
        )) is Some
}

/// Capture rows shifted from 0-based to 1-based, texts unchanged.
pub open spec fn spec_shift_one(s: Seq<(int, Seq<char>)>) -> Seq<(int, Seq<char>)> {
    s.map_values(|c: (int, Seq<char>)| (c.0 + 1, c.1))
}

/// The symbol hits of the first `n` templates: their capture lists
/// concatenated in template order, each row shifted to a 1-based line
/// number.
pub open spec fn spec_symbol_hits_upto(
    lang: Lang,
    key: Seq<char>,
    code: Seq<char>,
    n: int,
) -> Seq<(int, Seq<char>)>
    decreases n,
{
    if n <= 0 {
        Seq::empty()
    } else {
        spec_symbol_hits_upto(lang, key, code, n - 1) + spec_shift_one(
            match spec_template_captures(lang, key, code, n - 1) {
                Some(v) => v,
                None => Seq::empty(),
            },
        )
    }
}

/// The symbol hits of the language's whole template table over `code`.
pub open spec fn spec_symbol_hits(lang: Lang, key: Seq<char>, code: Seq<char>) -> Seq<
    (int, Seq<char>),
> {
    spec_symbol_hits_upto(lang, key, code, spec_queries(lang).len() as int)
}

/// Symbol search over one file's content. Each of the language's query
/// templates gets the key substituted verbatim for its placeholder, is
/// compiled, and is run over the parsed code; the captures are reported
/// in template order, then capture order, with 1-based line numbers,
/// under the one filename — or as no entry at all when nothing was
/// captured. Nothing is deduplicated: a node matched by several templates
/// is reported once per template, as a Rust function's name is by both
/// the function template and the catch-all identifier template. Asking
/// this of `Lang::Any` is the configuration error, reported as
/// `UnsupportedLanguage`; a template that fails after substitution is
/// `QueryFailed`, and success is owed exactly when every substituted
/// template runs.
pub fn get_symbols(filename: &str, code: &str, key: &str, parser: &mut SpecifyParser) -> (r:
    Result<SearchResult, SearchError>)
    ensures
        *final(parser) == *old(parser),
        (old(parser).spec_lang() == Lang::Any) <==> (r == Err::<SearchResult, SearchError>(
            SearchError::UnsupportedLanguage,
        )),
        old(parser).spec_lang() != Lang::Any ==> ((r is Ok) <==> spec_all_templates_ok(
            old(parser).spec_lang(),
            key@,
            code@,
        )),
        old(parser).spec_lang() != Lang::Any && !spec_all_templates_ok(
            old(parser).spec_lang(),
            key@,
            code@,
        ) ==> r == Err::<SearchResult, SearchError>(SearchError::QueryFailed),
        r matches Ok(res) ==> ({
            let hits = spec_symbol_hits(old(parser).spec_lang(), key@, code@);
            &&& spec_wf(res@)
            &&& (hits.len() == 0 ==> res@ == Seq::<(Seq<char>, Seq<(int, Seq<char>)>)>::empty())
            &&& (hits.len() > 0 ==> res@ == seq![(filename@, hits)])
            &&& forall|m: int| 0 <= m < hits.len() ==> 1 <= #[trigger] hits[m].0
        }),
{
    let lang: Lang = *parser.get_lang();
    if lang == Lang::Any {
        return Err(SearchError::UnsupportedLanguage);
    }
    let queries = get_query(&lang);
    let nq = queries.len();
    let mut hits: Vec<(usize, String)> = Vec::new();
    let mut qi: usize = 0;
    #[verifier::loop_isolation(false)]
    while qi < nq
        invariant
            qi <= nq,
            forall|j: int|
                0 <= j < qi ==> (#[trigger] spec_template_captures(lang, key@, code@, j)) is Some,
            view_hits(hits@) == spec_symbol_hits_upto(lang, key@, code@, qi as int),
            forall|m: int| 0 <= m < hits@.len() ==> 1 <= #[trigger] view_hits(hits@)[m].0,
        decreases nq - qi,
    {
        let q_text = replace_placeholder(queries[qi], key);
        proof {
            assert(queries@[qi as int]@ == spec_queries(lang)[qi as int]);
        }
        let caps_opt: Option<Vec<(usize, String)>> = match lang {
            Lang::Cpp | Lang::C => run_cpp_template(q_text.as_str(), code),
            Lang::Python => run_python_template(q_text.as_str(), code),
            Lang::Rust => run_rust_template(q_text.as_str(), code),
            Lang::Any => None,
        };
        match caps_opt {
            Some(caps) => {
                proof {
                    assert(spec_template_captures(lang, key@, code@, qi as int) == Some(
                        view_hits(caps@),
                    ));
                    assert forall|k: int| 0 <= k < caps@.len() implies #[trigger] spec_one_based(
                        caps@,
                    )[k] == spec_shift_one(view_hits(caps@))[k] by {}
                    assert(spec_one_based(caps@) =~= spec_shift_one(view_hits(caps@)));
                }
                append_one_based(&mut hits, caps);
                proof {
                    assert(view_hits(hits@) == spec_symbol_hits_upto(
                        lang,
                        key@,
                        code@,
                        qi + 1,
                    ));
                }
            },
            None => {
                proof {
                    assert(!(spec_template_captures(lang, key@, code@, qi as int) is Some));
                }
                return Err(SearchError::QueryFailed);
            },
        }
        qi += 1;
    }
    proof {
        assert(spec_all_templates_ok(lang, key@, code@));
        assert(view_hits(hits@).len() == hits@.len());
    }
    if hits.len() == 0 {
        Ok(SearchResult::new())
    } else {
        let mut r = SearchResult::new();
        let ghost hv: Seq<(int, Seq<char>)> = view_hits(hits@);
        r.push_hits(filename, hits);
        proof {
            let e = (filename@, hv);
            assert(Seq::<(Seq<char>, Seq<(int, Seq<char>)>)>::empty().push(e) =~= seq![e]);
        }
        Ok(r)
    }
}

} // verus!
