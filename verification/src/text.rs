//! Plain-text machinery of the archiver: substring search, leftmost
//! non-overlapping search-and-replace, and HTML entity decoding. Rewriting a
//! page body is pure text substitution keyed by the literal reference text,
//! so everything here is stated over sequences of characters.

use vstd::prelude::*;
use vstd::string::*;

verus! {

/// `pat` occurs in `s` starting at index `i`.
pub open spec fn occurs_at(s: Seq<char>, pat: Seq<char>, i: int) -> bool {
    0 <= i && i + pat.len() <= s.len() && s.subrange(i, i + pat.len()) == pat
}

/// `pat` occurs somewhere in `s`.
pub open spec fn contains_sub(s: Seq<char>, pat: Seq<char>) -> bool {
    exists|i: int| occurs_at(s, pat, i)
}

/// Leftmost, non-overlapping replacement of `pat` by `to`, scanning left to
/// right; an empty pattern leaves the text unchanged.
pub open spec fn replaced(s: Seq<char>, pat: Seq<char>, to: Seq<char>) -> Seq<char>
    decreases s.len(),
{
    if pat.len() == 0 || s.len() < pat.len() {
        s
    } else if s.subrange(0, pat.len() as int) == pat {
        to + replaced(s.skip(pat.len() as int), pat, to)
    } else {
        seq![s[0]] + replaced(s.skip(1), pat, to)
    }
}

proof fn lemma_step_match(s: Seq<char>, pat: Seq<char>, to: Seq<char>, i: int)
    requires
        0 < pat.len(),
        0 <= i,
        i + pat.len() <= s.len(),
        s.subrange(i, i + pat.len()) == pat,
    ensures
        replaced(s.skip(i), pat, to) == to + replaced(s.skip(i + pat.len()), pat, to),
{
    let t = s.skip(i);
    assert(t.subrange(0, pat.len() as int) =~= s.subrange(i, i + pat.len()));
    assert(t.skip(pat.len() as int) =~= s.skip(i + pat.len()));
}

proof fn lemma_step_nomatch(s: Seq<char>, pat: Seq<char>, to: Seq<char>, i: int)
    requires
        0 < pat.len(),
        0 <= i < s.len(),
        i + pat.len() > s.len() || s.subrange(i, i + pat.len()) != pat,
    ensures
        replaced(s.skip(i), pat, to) == seq![s[i]] + replaced(s.skip(i + 1), pat, to),
{
    let t = s.skip(i);
    if i + pat.len() <= s.len() {
        assert(t.subrange(0, pat.len() as int) =~= s.subrange(i, i + pat.len()));
        assert(t.skip(1) =~= s.skip(i + 1));
        assert(seq![t[0]] =~= seq![s[i]]);
    } else {
        assert(t =~= seq![s[i]] + s.skip(i + 1));
        assert(s.skip(i + 1).len() < pat.len());
        assert(seq![s[i]] + s.skip(i + 1) == seq![s[i]] + replaced(s.skip(i + 1), pat, to));
    }
}

fn matches_at(s: &str, pat: &str, i: usize, n: usize, m: usize) -> (r: bool)
    requires
        n == s@.len(),
        m == pat@.len(),
        i + m <= n,
    ensures
        r <==> s@.subrange(i as int, i + m) == pat@,
{
    let mut j: usize = 0;
    while j < m
        invariant
            n == s@.len(),
            m == pat@.len(),
            i + m <= n,
            j <= m,
            forall|k: int| 0 <= k < j ==> s@[i + k] == pat@[k],
        decreases m - j,
    {
        let c1 = s.get_char(i + j);
        let c2 = pat.get_char(j);
        if c1 != c2 {
            proof {
                assert(s@.subrange(i as int, i + m)[j as int] == s@[i + j]);
            }
            return false;
        }
        j = j + 1;
    }
    proof {
        assert(s@.subrange(i as int, i + m) =~= pat@);
    }
    true
}

/// Whether `pat` occurs anywhere in `s`.
pub fn contains_substring(s: &str, pat: &str) -> (r: bool)
    ensures
        r <==> contains_sub(s@, pat@),
{
    let n = s.unicode_len();
    let m = pat.unicode_len();
    if m == 0 {
        proof {
            assert(s@.subrange(0, 0) =~= pat@);
            assert(occurs_at(s@, pat@, 0));
        }
        return true;
    }
    if m > n {
        proof {
            assert(forall|k: int| !occurs_at(s@, pat@, k));
        }
        return false;
    }
    let mut i: usize = 0;
    while i <= n - m
        invariant
            n == s@.len(),
            m == pat@.len(),
            0 < m <= n,
            i <= n - m + 1,
            forall|k: int| 0 <= k < i ==> !occurs_at(s@, pat@, k),
        decreases n - i,
    {
        if matches_at(s, pat, i, n, m) {
            proof {
                assert(occurs_at(s@, pat@, i as int));
            }
            return true;
        }
        i = i + 1;
    }
    proof {
        assert forall|k: int| !occurs_at(s@, pat@, k) by {
            if occurs_at(s@, pat@, k) {
                assert(0 <= k && k + m <= n);
                assert(k < i);
            }
        }
    }
    false
}

/// Replace every leftmost, non-overlapping occurrence of `pat` in `s` by `to`.
pub fn replace_all(s: &str, pat: &str, to: &str) -> (r: String)
    ensures
        r@ == replaced(s@, pat@, to@),
{
    let n = s.unicode_len();
    let m = pat.unicode_len();
    if m == 0 {
        return s.to_owned();
    }
    let mut out = String::new();
    let mut i: usize = 0;
    proof {
        assert(s@.skip(0) =~= s@);
    }
    while i < n
        invariant
            n == s@.len(),
            m == pat@.len(),
            0 < m,
            i <= n,
            replaced(s@, pat@, to@) == out@ + replaced(s@.skip(i as int), pat@, to@),
        decreases n - i,
    {
        if m <= n - i && matches_at(s, pat, i, n, m) {
            proof {
                lemma_step_match(s@, pat@, to@, i as int);
            }
            out.append(to);
            i = i + m;
        } else {
            proof {
                lemma_step_nomatch(s@, pat@, to@, i as int);
            }
            let piece = s.substring_char(i, i + 1);
            proof {
                assert(piece@ =~= seq![s@[i as int]]);
            }
            out.append(piece);
            i = i + 1;
        }
    }
    proof {
        assert(s@.skip(n as int) =~= Seq::<char>::empty());
        assert(out@ + Seq::<char>::empty() =~= out@);
    }
    out
}

/// `p` is a prefix of `s`.
pub open spec fn is_prefix(p: Seq<char>, s: Seq<char>) -> bool {
    p.len() <= s.len() && s.subrange(0, p.len() as int) == p
}

/// `a` and `b` have no character in common.
pub open spec fn chars_disjoint(a: Seq<char>, b: Seq<char>) -> bool {
    forall|i: int, j: int|
        #![trigger a[i], b[j]]
        0 <= i < a.len() && 0 <= j < b.len() ==> a[i] != b[j]
}

proof fn lemma_no_occurrence_helper(s: Seq<char>, pat: Seq<char>, to: Seq<char>)
    requires
        pat.len() > 0,
        to.len() > 0,
        chars_disjoint(to, pat),
    ensures
        !contains_sub(replaced(s, pat, to), pat),
        forall|j: int|
            (0 < j < pat.len() && is_prefix(#[trigger] pat.skip(j), replaced(s, pat, to)))
                ==> is_prefix(pat.skip(j), s),
    decreases s.len(),
{
    let r = replaced(s, pat, to);
    let m = pat.len() as int;
    if s.len() < pat.len() {
        assert(r == s);
        assert(!contains_sub(r, pat)) by {
            if contains_sub(r, pat) {
                let k = choose|k: int| occurs_at(r, pat, k);
            }
        }
    } else if s.subrange(0, m) == pat {
        let rest = replaced(s.skip(m), pat, to);
        lemma_no_occurrence_helper(s.skip(m), pat, to);
        assert(r == to + rest);
        assert(!contains_sub(r, pat)) by {
            if contains_sub(r, pat) {
                let k = choose|k: int| occurs_at(r, pat, k);
                assert(r.subrange(k, k + m)[0] == r[k]);
                assert(r[k] == pat[0]);
                if k < to.len() {
                    assert(r[k] == to[k]);
                    assert(false);
                } else {
                    let k2 = k - to.len();
                    assert(rest.subrange(k2, k2 + m) =~= r.subrange(k, k + m));
                    assert(occurs_at(rest, pat, k2));
                    assert(false);
                }
            }
        }
        assert forall|j: int|
            (0 < j < pat.len() && is_prefix(#[trigger] pat.skip(j), r)) implies is_prefix(
            pat.skip(j),
            s,
        ) by {
            assert(r.subrange(0, m - j)[0] == r[0]);
            assert(r[0] == pat.skip(j)[0]);
            assert(pat.skip(j)[0] == pat[j]);
            assert(r[0] == to[0]);
            assert(false);
        }
    } else {
        let rest = replaced(s.skip(1), pat, to);
        lemma_no_occurrence_helper(s.skip(1), pat, to);
        assert(r == seq![s[0]] + rest);
        assert(!contains_sub(r, pat)) by {
            if contains_sub(r, pat) {
                let k = choose|k: int| occurs_at(r, pat, k);
                assert(r.subrange(k, k + m)[0] == r[k]);
                if k == 0 {
                    assert(pat[0] == r[0]);
                    assert(r[0] == s[0]);
                    if m == 1 {
                        assert(s.subrange(0, 1) =~= pat);
                        assert(false);
                    } else {
                        assert(rest.subrange(0, m - 1) =~= pat.skip(1)) by {
                            assert forall|l: int| 0 <= l < m - 1 implies rest[l] == pat.skip(1)[l]
                                by {
                                assert(rest[l] == r[l + 1]);
                                assert(r.subrange(0, m)[l + 1] == r[l + 1]);
                            }
                        }
                        assert(is_prefix(pat.skip(1), rest));
                        assert(is_prefix(pat.skip(1), s.skip(1)));
                        assert(s.subrange(0, m) =~= pat) by {
                            assert forall|l: int| 0 <= l < m implies s[l] == pat[l] by {
                                if l > 0 {
                                    assert(s.skip(1).subrange(0, m - 1)[l - 1] == s.skip(1)[l - 1]);
                                    assert(s.skip(1)[l - 1] == s[l]);
                                    assert(pat.skip(1)[l - 1] == pat[l]);
                                }
                            }
                        }
                        assert(false);
                    }
                } else {
                    assert(rest.subrange(k - 1, k - 1 + m) =~= r.subrange(k, k + m));
                    assert(occurs_at(rest, pat, k - 1));
                    assert(false);
                }
            }
        }
        assert forall|j: int|
            (0 < j < pat.len() && is_prefix(#[trigger] pat.skip(j), r)) implies is_prefix(
            pat.skip(j),
            s,
        ) by {
            assert(r.subrange(0, m - j)[0] == r[0]);
            assert(r[0] == pat.skip(j)[0]);
            assert(pat.skip(j)[0] == pat[j]);
            assert(r[0] == s[0]);
            if j == m - 1 {
                assert(s.subrange(0, 1) =~= pat.skip(j));
            } else {
                assert(rest.subrange(0, m - j - 1) =~= pat.skip(j + 1)) by {
                    assert forall|l: int| 0 <= l < m - j - 1 implies rest[l] == pat.skip(j + 1)[l]
                        by {
                        assert(rest[l] == r[l + 1]);
                        assert(r.subrange(0, m - j)[l + 1] == r[l + 1]);
                        assert(pat.skip(j)[l + 1] == pat[j + 1 + l]);
                        assert(pat.skip(j + 1)[l] == pat[j + 1 + l]);
                    }
                }
                assert(is_prefix(pat.skip(j + 1), rest));
                assert(is_prefix(pat.skip(j + 1), s.skip(1)));
                assert(s.subrange(0, m - j) =~= pat.skip(j)) by {
                    assert forall|l: int| 0 <= l < m - j implies s[l] == pat.skip(j)[l] by {
                        if l > 0 {
                            assert(s.skip(1).subrange(0, m - j - 1)[l - 1] == s.skip(1)[l - 1]);
                            assert(s.skip(1)[l - 1] == s[l]);
                            assert(pat.skip(j + 1)[l - 1] == pat[j + l]);
                            assert(pat.skip(j)[l] == pat[j + l]);
                        }
                    }
                }
            }
        }
    }
}

/// Rewriting a text that contains no occurrence of the pattern leaves it
/// unchanged.
pub proof fn lemma_replaced_absent_pattern_unchanged(s: Seq<char>, pat: Seq<char>, to: Seq<char>)
    requires
        !contains_sub(s, pat),
    ensures
        replaced(s, pat, to) == s,
    decreases s.len(),
{
    if pat.len() == 0 || s.len() < pat.len() {
    } else if s.subrange(0, pat.len() as int) == pat {
        assert(occurs_at(s, pat, 0));
    } else {
        assert(!contains_sub(s.skip(1), pat)) by {
            if contains_sub(s.skip(1), pat) {
                let k = choose|k: int| occurs_at(s.skip(1), pat, k);
                assert(s.subrange(k + 1, k + 1 + pat.len()) =~= s.skip(1).subrange(
                    k,
                    k + pat.len(),
                ));
                assert(occurs_at(s, pat, k + 1));
            }
        }
        lemma_replaced_absent_pattern_unchanged(s.skip(1), pat, to);
        assert(seq![s[0]] + s.skip(1) =~= s);
    }
}

/// After replacement the pattern no longer occurs anywhere in the text —
/// stated for a replacement that is non-empty and shares no character with
/// the pattern. No unconditional claim holds: when the replacement contains
/// the pattern (as when a literal reference is a suffix of its own local
/// path) the rewritten text still contains it.
pub proof fn lemma_replaced_removes_pattern(s: Seq<char>, pat: Seq<char>, to: Seq<char>)
    requires
        pat.len() > 0,
        to.len() > 0,
        chars_disjoint(to, pat),
    ensures
        !contains_sub(replaced(s, pat, to), pat),
{
    lemma_no_occurrence_helper(s, pat, to);
}

/// The page body after decoding the five HTML entity escapes, applied in the
/// fixed order lt, gt, quot, amp, apos.
pub open spec fn decoded(s: Seq<char>) -> Seq<char> {
    let s1 = replaced(s, "&lt;"@, "<"@);
    let s2 = replaced(s1, "&gt;"@, ">"@);
    let s3 = replaced(s2, "&quot;"@, "\""@);
    let s4 = replaced(s3, "&amp;"@, "&"@);
    replaced(s4, "&apos;"@, "'"@)
}

/// Decode the HTML entity escapes of a fetched page body.
pub fn replace_encoded_chars(body: String) -> (r: String)
    ensures
        r@ == decoded(body@),
{
    let s1 = replace_all(body.as_str(), "&lt;", "<");
    let s2 = replace_all(s1.as_str(), "&gt;", ">");
    let s3 = replace_all(s2.as_str(), "&quot;", "\"");
    let s4 = replace_all(s3.as_str(), "&amp;", "&");
    replace_all(s4.as_str(), "&apos;", "'")
}

} // verus!
