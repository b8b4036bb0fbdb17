//! Character and token utilities used by the fuzzy statistic comparison:
//! whitespace classification, substring search, and counting how many
//! whitespace-separated tokens of one text occur inside another.

use vstd::prelude::*;
use vstd::string::StrSliceExecFns;

verus! {

/// A character splits tokens exactly when it has the Unicode `White_Space`
/// property, the same classification `char::is_whitespace` uses.
pub open spec fn is_space(c: char) -> bool {
    c == ' ' || c == '\t' || c == '\n' || c == '\u{b}' || c == '\u{c}' || c == '\r'
        || c == '\u{85}' || c == '\u{a0}' || c == '\u{1680}'
        || ('\u{2000}' <= c && c <= '\u{200a}')
        || c == '\u{2028}' || c == '\u{2029}' || c == '\u{202f}' || c == '\u{205f}'
        || c == '\u{3000}'
}

/// Runtime counterpart of [`is_space`].
pub fn is_space_char(c: char) -> (r: bool)
    ensures
        r == is_space(c),
{
    c == ' ' || c == '\t' || c == '\n' || c == '\u{b}' || c == '\u{c}' || c == '\r'
        || c == '\u{85}' || c == '\u{a0}' || c == '\u{1680}'
        || ('\u{2000}' <= c && c <= '\u{200a}')
        || c == '\u{2028}' || c == '\u{2029}' || c == '\u{202f}' || c == '\u{205f}'
        || c == '\u{3000}'
}

/// `nd` occurs contiguously somewhere inside `hay` (the empty sequence
/// occurs in everything).
pub open spec fn contains_sub(hay: Seq<char>, nd: Seq<char>) -> bool {
    exists|i: int|
        0 <= i && i + nd.len() <= hay.len() && #[trigger] hay.subrange(i, i + nd.len() as int)
            == nd
}

/// `nd` occurs in `hay` starting exactly at index `at`.
fn matches_at(hay: &Vec<char>, nd: &Vec<char>, at: usize) -> (r: bool)
    requires
        at + nd@.len() <= hay@.len(),
    ensures
        r == (hay@.subrange(at as int, at as int + nd@.len() as int) == nd@),
{
    let m: usize = nd.len();
    let n: usize = hay.len();
    let mut k: usize = 0;
    while k < m
        invariant
            k <= m,
            m == nd@.len(),
            n == hay@.len(),
            at + m <= n,
            forall|q: int| 0 <= q < k ==> hay@[at + q] == nd@[q],
        decreases m - k,
    {
        if hay[at + k] != nd[k] {
            proof {
                assert(hay@.subrange(at as int, at as int + m as int)[k as int] != nd@[k as int]);
            }
            return false;
        }
        k += 1;
    }
    proof {
        assert(hay@.subrange(at as int, at as int + m as int) =~= nd@);
    }
    true
}

/// Runtime counterpart of [`contains_sub`]: naive substring search.
pub fn is_substring(hay: &Vec<char>, nd: &Vec<char>) -> (r: bool)
    ensures
        r == contains_sub(hay@, nd@),
{
    let m: usize = nd.len();
    let n: usize = hay.len();
    if m > n {
        return false;
    }
    if m == 0 {
        proof {
            assert(hay@.subrange(0, 0 + nd@.len() as int) =~= nd@);
        }
        return true;
    }
    let mut i: usize = 0;
    while i <= n - m
        invariant
            1 <= m <= n,
            n == hay@.len(),
            m == nd@.len(),
            i <= n - m + 1,
            forall|p: int| 0 <= p < i ==> #[trigger] hay@.subrange(p, p + m as int) != nd@,
        decreases n - m + 1 - i,
    {
        if matches_at(hay, nd, i) {
            proof {
                assert(hay@.subrange(i as int, i as int + m as int) == nd@);
            }
            return true;
        }
        i += 1;
    }
    false
}

/// Length of the leading run of non-whitespace characters of `s`.
pub open spec fn token_len(s: Seq<char>) -> nat
    decreases s.len(),
{
    if s.len() == 0 || is_space(s[0]) {
        0
    } else {
        1 + token_len(s.drop_first())
    }
}

/// How many whitespace-separated tokens of `s` occur as substrings of
/// `other`.  Tokens are counted with multiplicity, in the order `s` lists
/// them, exactly as a left-to-right scan of `s` produces them.
pub open spec fn match_count(s: Seq<char>, other: Seq<char>) -> nat
    decreases s.len(),
    via match_count_decreases
{
    if s.len() == 0 {
        0
    } else if is_space(s[0]) {
        match_count(s.drop_first(), other)
    } else {
        let t = token_len(s) as int;
        (if contains_sub(other, s.subrange(0, t)) {
            1nat
        } else {
            0nat
        }) + match_count(s.subrange(t, s.len() as int), other)
    }
}

#[via_fn]
proof fn match_count_decreases(s: Seq<char>, other: Seq<char>) {
    if s.len() != 0 && !is_space(s[0]) {
        lemma_token_len_le(s);
        assert(token_len(s) >= 1);
    }
}

pub proof fn lemma_token_len_le(s: Seq<char>)
    ensures
        token_len(s) <= s.len(),
    decreases s.len(),
{
    if s.len() == 0 || is_space(s[0]) {
    } else {
        lemma_token_len_le(s.drop_first());
    }
}

/// If the first `m` characters of `s` are non-whitespace and the run stops
/// there (end of `s`, or a whitespace character), the leading token has
/// length exactly `m`.
pub proof fn lemma_token_len_is(s: Seq<char>, m: int)
    requires
        0 <= m <= s.len(),
        forall|k: int| 0 <= k < m ==> !is_space(s[k]),
        m < s.len() ==> is_space(s[m]),
    ensures
        token_len(s) == m,
    decreases m,
{
    if m == 0 {
    } else {
        assert(!is_space(s[0]));
        lemma_token_len_is(s.drop_first(), m - 1);
    }
}

/// The characters of `s`, in order, as a vector.
pub fn chars_of(s: &str) -> (r: Vec<char>)
    ensures
        r@ == s@,
{
    let n: usize = s.unicode_len();
    let mut r: Vec<char> = Vec::new();
    proof {
        assert(r@ =~= s@.subrange(0, 0));
    }
    let mut i: usize = 0;
    while i < n
        invariant
            i <= n,
            n == s@.len(),
            r@ == s@.subrange(0, i as int),
        decreases n - i,
    {
        r.push(s.get_char(i));
        proof {
            assert(r@ =~= s@.subrange(0, i + 1));
        }
        i += 1;
    }
    proof {
        assert(r@ =~= s@);
    }
    r
}

/// Runtime counterpart of [`match_count`]: scans `s` once, testing each
/// token for occurrence in `other`.
pub fn count_matching_tokens(s: &Vec<char>, other: &Vec<char>) -> (count: usize)
    ensures
        count == match_count(s@, other@),
{
    let n: usize = s.len();
    let mut i: usize = 0;
    let mut count: usize = 0;
    proof {
        assert(s@.subrange(0, n as int) =~= s@);
    }
    while i < n
        invariant
            i <= n,
            n == s@.len(),
            count <= i,
            count + match_count(s@.subrange(i as int, n as int), other@) == match_count(
                s@,
                other@,
            ),
        decreases n - i,
    {
        let ghost rem = s@.subrange(i as int, n as int);
        if is_space_char(s[i]) {
            proof {
                assert(is_space(rem[0]));
                assert(match_count(rem, other@) == match_count(rem.drop_first(), other@));
                assert(rem.drop_first() =~= s@.subrange(i + 1, n as int));
            }
            i += 1;
        } else {
            let start: usize = i;
            let mut tok: Vec<char> = Vec::new();
            proof {
                assert(tok@ =~= s@.subrange(start as int, start as int));
            }
            loop
                invariant
                    start <= i <= n,
                    n == s@.len(),
                    tok@ == s@.subrange(start as int, i as int),
                    forall|k: int| start <= k < i ==> !is_space(s@[k]),
                ensures
                    start <= i <= n,
                    tok@ == s@.subrange(start as int, i as int),
                    forall|k: int| start <= k < i ==> !is_space(s@[k]),
                    i == n || is_space(s@[i as int]),
                decreases n - i,
            {
                if i < n {
                    let c = s[i];
                    if is_space_char(c) {
                        break ;
                    }
                    tok.push(c);
                    proof {
                        assert(tok@ =~= s@.subrange(start as int, i + 1));
                    }
                    i += 1;
                } else {
                    break ;
                }
            }
            proof {
                assert(!is_space(s@[start as int]));
                assert(i > start);
                let m = i - start;
                assert forall|k: int| 0 <= k < m implies !is_space(rem[k]) by {
                    assert(rem[k] == s@[start + k]);
                }
                if m < rem.len() {
                    assert(rem[m] == s@[i as int]);
                }
                lemma_token_len_is(rem, m);
                assert(rem.subrange(0, m) =~= tok@);
                assert(rem.subrange(m, rem.len() as int) =~= s@.subrange(i as int, n as int));
                assert(match_count(rem, other@) == (if contains_sub(other@, tok@) {
                    1nat
                } else {
                    0nat
                }) + match_count(s@.subrange(i as int, n as int), other@));
            }
            if is_substring(other, &tok) {
                count += 1;
            }
        }
    }
    proof {
        assert(s@.subrange(n as int, n as int) =~= Seq::<char>::empty());
        assert(match_count(s@.subrange(n as int, n as int), other@) == 0);
    }
    count
}

} // verus!
