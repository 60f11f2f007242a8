//! Verified text utilities: substring search, prefix tests, placeholder
//! substitution and line splitting, all specified over `Seq<char>`.

use vstd::prelude::*;

verus! {

/// The needle `n` occurs in `h` starting exactly at position `i`.
pub open spec fn spec_contains_at(h: Seq<char>, n: Seq<char>, i: int) -> bool {
    0 <= i && i + n.len() <= h.len() && h.subrange(i, i + n.len() as int) == n
}

/// The needle `n` occurs somewhere in `h` as a contiguous run of characters.
pub open spec fn spec_contains(h: Seq<char>, n: Seq<char>) -> bool {
    exists|i: int| spec_contains_at(h, n, i)
}

/// `p` is a prefix of `s`.
pub open spec fn spec_starts_with(s: Seq<char>, p: Seq<char>) -> bool {
    spec_contains_at(s, p, 0)
}

/// Character-for-character equality of two string slices.
pub fn str_eq(a: &str, b: &str) -> (r: bool)
    ensures
        r == (a@ == b@),
{
    let x = a.to_owned();
    let y = b.to_owned();
    x == y
}

/// Does `n` occur in `h` starting at position `i`?
pub fn matches_at(h: &str, n: &str, i: usize) -> (r: bool)
    requires
        i + n@.len() <= h@.len(),
    ensures
        r == spec_contains_at(h@, n@, i as int),
{
    let hl = h.unicode_len();
    let nl = n.unicode_len();
    let mut j: usize = 0;
    while j < nl
        invariant
            hl == h@.len(),
            nl == n@.len(),
            i + nl <= h@.len(),
            j <= nl,
            forall|l: int| 0 <= l < j ==> h@[i + l] == n@[l],
        decreases nl - j,
    {
        if h.get_char(i + j) != n.get_char(j) {
            proof {
                if spec_contains_at(h@, n@, i as int) {
                    assert(h@.subrange(i as int, i + nl as int)[j as int] == h@[i + j]);
                }
            }
            return false;
        }
        j += 1;
    }
    proof {
        assert(h@.subrange(i as int, i + nl as int) =~= n@);
    }
    true
}

/// Does `s` start with `p`?
pub fn str_starts_with(s: &str, p: &str) -> (r: bool)
    ensures
        r == spec_starts_with(s@, p@),
{
    if p.unicode_len() > s.unicode_len() {
        false
    } else {
        matches_at(s, p, 0)
    }
}

/// Does `n` occur anywhere in `h`? A literal, case-sensitive scan.
pub fn str_contains(h: &str, n: &str) -> (r: bool)
    ensures
        r == spec_contains(h@, n@),
{
    let hl = h.unicode_len();
    let nl = n.unicode_len();
    if nl > hl {
        return false;
    }
    if nl == 0 {
        proof {
            assert(h@.subrange(0, 0) =~= n@);
            assert(spec_contains_at(h@, n@, 0));
        }
        return true;
    }
    let mut i: usize = 0;
    while i <= hl - nl
        invariant
            hl == h@.len(),
            nl == n@.len(),
            0 < nl <= hl,
            i <= hl - nl + 1,
            forall|k: int| 0 <= k < i ==> !spec_contains_at(h@, n@, k),
        decreases hl - nl + 1 - i,
    {
        if matches_at(h, n, i) {
            return true;
        }
        i += 1;
    }
    proof {
        assert(forall|k: int| spec_contains_at(h@, n@, k) ==> 0 <= k <= hl - nl);
    }
    false
}

/// The template text with every occurrence of the placeholder `:?` replaced
/// by `k`, scanning left to right without overlap.
pub open spec fn spec_replace(t: Seq<char>, k: Seq<char>) -> Seq<char>
    decreases t.len(),
{
    if t.len() < 2 {
        t
    } else if t[0] == ':' && t[1] == '?' {
        k + spec_replace(t.skip(2), k)
    } else {
        seq![t[0]] + spec_replace(t.skip(1), k)
    }
}

/// Substitute `k` for every `:?` placeholder in `t`. The key is inserted
/// verbatim, with no escaping.
pub fn replace_placeholder(t: &str, k: &str) -> (r: String)
    ensures
        r@ == spec_replace(t@, k@),
{
    let tl = t.unicode_len();
    let mut r = String::new();
    let mut i: usize = 0;
    proof {
        assert(t@.skip(0) =~= t@);
        assert(Seq::<char>::empty() + spec_replace(t@, k@) =~= spec_replace(t@, k@));
    }
    while i < tl
        invariant
            tl == t@.len(),
            i <= tl,
            r@ + spec_replace(t@.skip(i as int), k@) == spec_replace(t@, k@),
        decreases tl - i,
    {
        if i + 1 < tl && t.get_char(i) == ':' && t.get_char(i + 1) == '?' {
            let ghost r0: Seq<char> = r@;
            r.append(k);
            proof {
                assert(t@.skip(i as int)[0] == t@[i as int]);
                assert(t@.skip(i as int)[1] == t@[i + 1]);
                assert(t@.skip(i as int).skip(2) =~= t@.skip(i + 2));
                assert(spec_replace(t@.skip(i as int), k@) == k@ + spec_replace(
                    t@.skip(i + 2),
                    k@,
                ));
                assert((r0 + k@) + spec_replace(t@.skip(i + 2), k@) =~= r0 + (k@ + spec_replace(
                    t@.skip(i + 2),
                    k@,
                )));
            }
            i += 2;
        } else {
            let c = t.substring_char(i, i + 1);
            let ghost r0: Seq<char> = r@;
            r.append(c);
            proof {
                assert(c@ =~= seq![t@[i as int]]);
                assert(t@.skip(i as int)[0] == t@[i as int]);
                if i + 1 < tl {
                    assert(t@.skip(i as int).skip(1) =~= t@.skip(i + 1));
                    assert(spec_replace(t@.skip(i as int), k@) == seq![t@[i as int]]
                        + spec_replace(t@.skip(i + 1), k@));
                } else {
                    assert(t@.skip(i as int) =~= seq![t@[i as int]]);
                    assert(t@.skip(i + 1) =~= Seq::<char>::empty());
                    assert(spec_replace(t@.skip(i as int), k@) == seq![t@[i as int]]
                        + spec_replace(t@.skip(i + 1), k@)) by {
                        assert(seq![t@[i as int]] + Seq::<char>::empty() =~= seq![t@[i as int]]);
                    }
                }
                assert((r0 + c@) + spec_replace(t@.skip(i + 1), k@) =~= r0 + (c@ + spec_replace(
                    t@.skip(i + 1),
                    k@,
                )));
            }
            i += 1;
        }
    }
    proof {
        assert(t@.skip(tl as int) =~= Seq::<char>::empty());
        assert(r@ + Seq::<char>::empty() =~= r@);
    }
    r
}

/// Index of the first newline character in `s`, or `s.len()` when `s` holds
/// none.
pub open spec fn spec_first_nl(s: Seq<char>) -> int
    decreases s.len(),
{
    if s.len() == 0 {
        0
    } else if s[0] == '\n' {
        0
    } else {
        1 + spec_first_nl(s.skip(1))
    }
}

pub proof fn lemma_first_nl(s: Seq<char>)
    ensures
        0 <= spec_first_nl(s) <= s.len(),
        spec_first_nl(s) < s.len() ==> s[spec_first_nl(s)] == '\n',
        forall|j: int| 0 <= j < spec_first_nl(s) ==> s[j] != '\n',
    decreases s.len(),
{
    if s.len() == 0 {
    } else if s[0] == '\n' {
    } else {
        lemma_first_nl(s.skip(1));
        assert forall|j: int| 0 <= j < spec_first_nl(s) implies s[j] != '\n' by {
            if j > 0 {
                assert(s.skip(1)[j - 1] == s[j]);
            }
        }
        if spec_first_nl(s) < s.len() {
            assert(s.skip(1)[spec_first_nl(s.skip(1))] == s[spec_first_nl(s)]);
        }
    }
}

/// The three facts of `lemma_first_nl` pin `spec_first_nl` down.
pub proof fn lemma_first_nl_unique(s: Seq<char>, i: int)
    requires
        0 <= i <= s.len(),
        i < s.len() ==> s[i] == '\n',
        forall|j: int| 0 <= j < i ==> s[j] != '\n',
    ensures
        spec_first_nl(s) == i,
    decreases s.len(),
{
    if s.len() == 0 {
    } else if s[0] == '\n' {
        assert(i == 0);
    } else {
        assert(i > 0) by {
            if i == 0 {
                lemma_first_nl(s);
            }
        }
        assert forall|j: int| 0 <= j < i - 1 implies s.skip(1)[j] != '\n' by {
            assert(s.skip(1)[j] == s[j + 1]);
        }
        if i - 1 < s.len() - 1 {
            assert(s.skip(1)[i - 1] == s[i]);
        }
        lemma_first_nl_unique(s.skip(1), i - 1);
    }
}

/// A line with a trailing carriage return stripped, as a reader of
/// CRLF-terminated lines reports it.
pub open spec fn spec_strip_cr(l: Seq<char>) -> Seq<char> {
    if l.len() > 0 && l[l.len() - 1] == '\r' {
        l.drop_last()
    } else {
        l
    }
}

/// The lines of `s`: split on `\n`, with a `\r` preceding the `\n` stripped.
/// Text after the last newline forms a final line kept as it stands; a
/// trailing newline yields no extra empty line.
pub open spec fn spec_lines(s: Seq<char>) -> Seq<Seq<char>>
    decreases s.len(),
    via spec_lines_decreases
{
    if s.len() == 0 {
        Seq::empty()
    } else {
        let i = spec_first_nl(s);
        if i < s.len() {
            seq![spec_strip_cr(s.subrange(0, i))] + spec_lines(s.skip(i + 1))
        } else {
            seq![s]
        }
    }
}

#[via_fn]
proof fn spec_lines_decreases(s: Seq<char>) {
    lemma_first_nl(s);
}

/// The views of a sequence of owned strings.
pub open spec fn view_strings(v: Seq<String>) -> Seq<Seq<char>> {
    v.map_values(|s: String| s@)
}

/// Split `s` into its lines, as `spec_lines` describes them.
pub fn split_lines(s: &str) -> (r: Vec<String>)
    ensures
        view_strings(r@) == spec_lines(s@),
{
    let sl = s.unicode_len();
    let mut r: Vec<String> = Vec::new();
    let mut pos: usize = 0;
    proof {
        assert(s@.skip(0) =~= s@);
        assert(view_strings(r@) =~= Seq::<Seq<char>>::empty());
        assert(view_strings(r@) + spec_lines(s@) =~= spec_lines(s@));
    }
    while pos < sl
        invariant
            sl == s@.len(),
            pos <= sl,
            view_strings(r@) + spec_lines(s@.skip(pos as int)) == spec_lines(s@),
        decreases sl - pos,
    {
        let mut j: usize = pos;
        while j < sl && s.get_char(j) != '\n'
            invariant
                sl == s@.len(),
                pos <= j <= sl,
                forall|l: int| pos <= l < j ==> s@[l] != '\n',
            decreases sl - j,
        {
            j += 1;
        }
        proof {
            assert forall|l: int| 0 <= l < j - pos implies s@.skip(pos as int)[l] != '\n' by {
                assert(s@.skip(pos as int)[l] == s@[pos + l]);
            }
            if j < sl {
                assert(s@.skip(pos as int)[j - pos] == s@[j as int]);
            }
            lemma_first_nl_unique(s@.skip(pos as int), j - pos);
        }
        let mut end = j;
        if j < sl && end > pos && s.get_char(end - 1) == '\r' {
            end -= 1;
        }
        let line = s.substring_char(pos, end).to_owned();
        let ghost r0: Seq<String> = r@;
        r.push(line);
        proof {
            let suf = s@.skip(pos as int);
            assert(view_strings(r@) =~= view_strings(r0).push(line@));
            if j < sl {
                let sub = suf.subrange(0, j - pos);
                assert(sub =~= s@.subrange(pos as int, j as int));
                if end < j {
                    assert(sub[sub.len() - 1] == s@[j - 1]);
                    assert(spec_strip_cr(sub) =~= s@.subrange(pos as int, end as int));
                } else {
                    if j > pos {
                        assert(sub[sub.len() - 1] == s@[j - 1]);
                    }
                    assert(spec_strip_cr(sub) =~= s@.subrange(pos as int, end as int));
                }
                assert(line@ == spec_strip_cr(sub));
                assert(suf.skip(j - pos + 1) =~= s@.skip(j + 1));
                assert(spec_lines(suf) == seq![spec_strip_cr(sub)] + spec_lines(s@.skip(j + 1)));
                assert(view_strings(r@) + spec_lines(s@.skip(j + 1)) =~= view_strings(r0)
                    + spec_lines(suf));
            } else {
                assert(suf =~= s@.subrange(pos as int, sl as int));
                assert(line@ == suf);
                assert(spec_lines(suf) == seq![suf]);
                assert(s@.skip(sl as int) =~= Seq::<char>::empty());
                assert(view_strings(r@) + spec_lines(s@.skip(sl as int)) =~= view_strings(r0)
                    + spec_lines(suf));
            }
        }
        if j < sl {
            pos = j + 1;
        } else {
            pos = sl;
        }
    }
    proof {
        assert(s@.skip(sl as int) =~= Seq::<char>::empty());
        assert(view_strings(r@) + spec_lines(Seq::<char>::empty()) =~= view_strings(r@));
    }
    r
}

} // verus!
