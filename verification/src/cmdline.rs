//! Shell command scanning.
//!
//! Commands are split into pipeline segments (separated by `;`, `|`,
//! `&&`, `||` or newlines) and segments into whitespace-separated tokens.
//! Leading `VAR=value` environment assignments are recognized so that the
//! executable token and its arguments can be checked.

use vstd::prelude::*;

use crate::chars::{
    contains_sub, is_ws, spec_contains, spec_is_ws, subrange_chars,
};

verus! {

/// Segment accumulator: the segments of `s` from position `i` on, given
/// the partial segment `cur` and the segments already complete.
pub open spec fn spec_segments_rec(
    s: Seq<char>,
    i: int,
    cur: Seq<char>,
    acc: Seq<Seq<char>>,
) -> Seq<Seq<char>>
    decreases s.len() - i,
{
    if i < 0 || i >= s.len() {
        acc.push(cur)
    } else if s[i] == '&' && i + 1 < s.len() && s[i + 1] == '&' {
        spec_segments_rec(s, i + 2, Seq::empty(), acc.push(cur))
    } else if s[i] == ';' || s[i] == '|' || s[i] == '\n' {
        spec_segments_rec(s, i + 1, Seq::empty(), acc.push(cur))
    } else {
        spec_segments_rec(s, i + 1, cur.push(s[i]), acc)
    }
}

/// The pipeline segments of a command.
pub open spec fn spec_segments(s: Seq<char>) -> Seq<Seq<char>> {
    spec_segments_rec(s, 0, Seq::empty(), Seq::empty())
}

pub fn split_segments(s: &Vec<char>) -> (r: Vec<Vec<char>>)
    ensures
        r.deep_view() == spec_segments(s@),
{
    let n = s.len();
    let mut acc: Vec<Vec<char>> = Vec::new();
    let mut cur: Vec<char> = Vec::new();
    let mut i: usize = 0;
    proof {
        assert(acc.deep_view() =~~= Seq::<Seq<char>>::empty());
        assert(cur@ =~= Seq::<char>::empty());
    }
    while i < n
        invariant
            n == s@.len(),
            i <= n,
            spec_segments(s@) == spec_segments_rec(s@, i as int, cur@, acc.deep_view()),
        decreases n - i,
    {
        let ghost acc0 = acc.deep_view();
        let ghost cur0 = cur@;
        let c = s[i];
        if c == '&' && i + 1 < n && s[i + 1] == '&' {
            acc.push(cur);
            cur = Vec::new();
            proof {
                assert(acc.deep_view() =~~= acc0.push(cur0));
                assert(cur@ =~= Seq::<char>::empty());
            }
            i = i + 2;
        } else if c == ';' || c == '|' || c == '\n' {
            acc.push(cur);
            cur = Vec::new();
            proof {
                assert(acc.deep_view() =~~= acc0.push(cur0));
                assert(cur@ =~= Seq::<char>::empty());
            }
            i = i + 1;
        } else {
            cur.push(c);
            proof {
                assert(cur@ =~= cur0.push(c));
            }
            i = i + 1;
        }
    }
    let ghost accn = acc.deep_view();
    let ghost curn = cur@;
    acc.push(cur);
    proof {
        assert(acc.deep_view() =~~= accn.push(curn));
    }
    acc
}

/// Token accumulator: the whitespace-separated tokens of `s` from
/// position `i` on.
pub open spec fn spec_tokens_rec(
    s: Seq<char>,
    i: int,
    cur: Seq<char>,
    acc: Seq<Seq<char>>,
) -> Seq<Seq<char>>
    decreases s.len() - i,
{
    if i < 0 || i >= s.len() {
        if cur.len() > 0 {
            acc.push(cur)
        } else {
            acc
        }
    } else if spec_is_ws(s[i]) {
        if cur.len() > 0 {
            spec_tokens_rec(s, i + 1, Seq::empty(), acc.push(cur))
        } else {
            spec_tokens_rec(s, i + 1, cur, acc)
        }
    } else {
        spec_tokens_rec(s, i + 1, cur.push(s[i]), acc)
    }
}

/// The whitespace-separated tokens of a segment. No token is empty.
pub open spec fn spec_tokens(s: Seq<char>) -> Seq<Seq<char>> {
    spec_tokens_rec(s, 0, Seq::empty(), Seq::empty())
}

pub fn split_tokens(s: &Vec<char>) -> (r: Vec<Vec<char>>)
    ensures
        r.deep_view() == spec_tokens(s@),
{
    let n = s.len();
    let mut acc: Vec<Vec<char>> = Vec::new();
    let mut cur: Vec<char> = Vec::new();
    let mut i: usize = 0;
    proof {
        assert(acc.deep_view() =~~= Seq::<Seq<char>>::empty());
        assert(cur@ =~= Seq::<char>::empty());
    }
    while i < n
        invariant
            n == s@.len(),
            i <= n,
            spec_tokens(s@) == spec_tokens_rec(s@, i as int, cur@, acc.deep_view()),
        decreases n - i,
    {
        let ghost acc0 = acc.deep_view();
        let ghost cur0 = cur@;
        let c = s[i];
        if is_ws(c) {
            if cur.len() > 0 {
                acc.push(cur);
                cur = Vec::new();
                proof {
                    assert(acc.deep_view() =~~= acc0.push(cur0));
                    assert(cur@ =~= Seq::<char>::empty());
                }
            }
        } else {
            cur.push(c);
            proof {
                assert(cur@ =~= cur0.push(c));
            }
        }
        i = i + 1;
    }
    if cur.len() > 0 {
        let ghost accn = acc.deep_view();
        let ghost curn = cur@;
        acc.push(cur);
        proof {
            assert(acc.deep_view() =~~= accn.push(curn));
        }
    }
    acc
}

/// A leading `VAR=value` environment assignment: contains `=` and starts
/// with an ASCII letter or underscore.
pub open spec fn spec_is_env_assignment(t: Seq<char>) -> bool {
    &&& t.len() > 0
    &&& (('a' <= t[0] && t[0] <= 'z') || ('A' <= t[0] && t[0] <= 'Z') || t[0] == '_')
    &&& spec_contains(t, "="@)
}

pub fn is_env_assignment(t: &Vec<char>) -> (r: bool)
    ensures
        r == spec_is_env_assignment(t@),
{
    if t.len() == 0 {
        return false;
    }
    let c = t[0];
    let starts = ('a' <= c && c <= 'z') || ('A' <= c && c <= 'Z') || c == '_';
    starts && contains_sub(t, "=")
}

/// Index of the first token that is not an environment assignment.
pub open spec fn spec_first_non_env(toks: Seq<Seq<char>>, i: int) -> int
    decreases toks.len() - i,
{
    if i < 0 || i >= toks.len() {
        i
    } else if spec_is_env_assignment(toks[i]) {
        spec_first_non_env(toks, i + 1)
    } else {
        i
    }
}

pub fn first_non_env(toks: &Vec<Vec<char>>, start: usize) -> (r: usize)
    requires
        start <= toks@.len(),
    ensures
        r == spec_first_non_env(toks.deep_view(), start as int),
        start <= r <= toks@.len(),
    decreases toks@.len() - start,
{
    if start >= toks.len() {
        return start;
    }
    proof {
        assert(toks.deep_view()[start as int] == toks@[start as int]@);
    }
    if is_env_assignment(&toks[start]) {
        first_non_env(toks, start + 1)
    } else {
        start
    }
}

/// Quote characters stripped from the ends of argument tokens.
pub open spec fn spec_is_quote(c: char) -> bool {
    c == '"' || c == '\''
}

/// The token with wrapping quote characters removed from both ends,
/// working inward over the range `[a, b)`.
pub open spec fn spec_trim_quotes_range(s: Seq<char>, a: int, b: int) -> Seq<char>
    decreases b - a,
{
    if a < b && spec_is_quote(s[a]) {
        spec_trim_quotes_range(s, a + 1, b)
    } else if a < b && spec_is_quote(s[b - 1]) {
        spec_trim_quotes_range(s, a, b - 1)
    } else if 0 <= a <= b <= s.len() {
        s.subrange(a, b)
    } else {
        Seq::empty()
    }
}

/// The token with wrapping quotes removed.
pub open spec fn spec_strip_quotes(s: Seq<char>) -> Seq<char> {
    spec_trim_quotes_range(s, 0, s.len() as int)
}

pub fn strip_quotes(t: &Vec<char>) -> (r: Vec<char>)
    ensures
        r@ == spec_strip_quotes(t@),
{
    let mut a: usize = 0;
    let mut b: usize = t.len();
    while a < b
        invariant
            a <= b <= t@.len(),
            spec_strip_quotes(t@) == spec_trim_quotes_range(t@, a as int, b as int),
        ensures
            a <= b <= t@.len(),
            spec_strip_quotes(t@) == spec_trim_quotes_range(t@, a as int, b as int),
            a == b || (!spec_is_quote(t@[a as int]) && !spec_is_quote(t@[b - 1])),
        decreases b - a,
    {
        let ca = t[a];
        if ca == '"' || ca == '\'' {
            a = a + 1;
        } else {
            let cb = t[b - 1];
            if cb == '"' || cb == '\'' {
                b = b - 1;
            } else {
                break;
            }
        }
    }
    proof {
        assert(spec_trim_quotes_range(t@, a as int, b as int) == t@.subrange(a as int, b as int));
    }
    subrange_chars(t, a, b)
}

/// The part of a token after its last `/`, or the whole token when it
/// has none.
pub open spec fn spec_basename(t: Seq<char>) -> Seq<char>
    decreases t.len(),
{
    if t.len() == 0 {
        t
    } else if t.last() == '/' {
        Seq::empty()
    } else {
        spec_basename(t.drop_last()).push(t.last())
    }
}

pub fn basename(t: &Vec<char>) -> (r: Vec<char>)
    ensures
        r@ == spec_basename(t@),
{
    let n = t.len();
    let mut k: usize = n;
    while k > 0
        invariant
            k <= n,
            n == t@.len(),
            forall|j: int| k <= j < n ==> t@[j] != '/',
        decreases k,
    {
        if t[k - 1] == '/' {
            let r = subrange_chars(t, k, n);
            proof {
                lemma_basename_after_slash(t@, k as int - 1);
            }
            return r;
        }
        k = k - 1;
    }
    let r = subrange_chars(t, 0, n);
    proof {
        lemma_basename_no_slash(t@);
        assert(r@ =~= t@);
    }
    r
}

/// With a `/` at `k` and none after it, the basename is the suffix
/// past `k`.
proof fn lemma_basename_after_slash(t: Seq<char>, k: int)
    requires
        0 <= k < t.len(),
        t[k] == '/',
        forall|j: int| k < j < t.len() ==> t[j] != '/',
    ensures
        spec_basename(t) == t.subrange(k + 1, t.len() as int),
    decreases t.len(),
{
    if k == t.len() - 1 {
        assert(t.last() == '/');
        assert(t.subrange(k + 1, t.len() as int) =~= Seq::empty());
    } else {
        assert(t.last() != '/');
        lemma_basename_after_slash(t.drop_last(), k);
        assert(t.drop_last().subrange(k + 1, t.len() - 1) =~= t.subrange(k + 1, t.len() - 1));
        assert(t.subrange(k + 1, t.len() - 1).push(t.last()) =~= t.subrange(
            k + 1,
            t.len() as int,
        ));
    }
}

/// Without any `/`, the basename is the token itself.
proof fn lemma_basename_no_slash(t: Seq<char>)
    requires
        forall|j: int| 0 <= j < t.len() ==> t[j] != '/',
    ensures
        spec_basename(t) == t,
    decreases t.len(),
{
    if t.len() > 0 {
        lemma_basename_no_slash(t.drop_last());
        assert(t.drop_last().push(t.last()) =~= t);
    }
}

} // verus!
