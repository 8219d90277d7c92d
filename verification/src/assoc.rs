//! Association lists keyed by strings.
//!
//! The runtime's rule tables are small maps from names to rules. They are
//! held as vectors of pairs; lookup returns the first pair whose key
//! matches, so duplicate keys behave like shadowed entries.

use vstd::prelude::*;

use crate::strutil::str_eq;

verus! {

/// First value bound to `name`, if any.
pub open spec fn assoc_lookup<T>(s: Seq<(String, T)>, name: Seq<char>) -> Option<T>
    decreases s.len(),
{
    if s.len() == 0 {
        None
    } else if s[0].0@ == name {
        Some(s[0].1)
    } else {
        assoc_lookup(s.drop_first(), name)
    }
}

/// When the first `i` keys all differ from `name`, the lookup is decided
/// by the remaining suffix.
pub proof fn lemma_assoc_lookup_skip<T>(s: Seq<(String, T)>, name: Seq<char>, i: int)
    requires
        0 <= i <= s.len(),
        forall|j: int| 0 <= j < i ==> s[j].0@ != name,
    ensures
        assoc_lookup(s, name) == assoc_lookup(s.skip(i), name),
    decreases i,
{
    if i == 0 {
        assert(s.skip(0) =~= s);
    } else {
        assert(s.drop_first() =~= s.skip(1));
        lemma_assoc_lookup_skip(s.drop_first(), name, i - 1);
        assert(s.drop_first().skip(i - 1) =~= s.skip(i));
    }
}

/// Index of the first pair whose key is `name`.
pub fn assoc_find_index<T>(v: &Vec<(String, T)>, name: &str) -> (r: Option<usize>)
    ensures
        match r {
            Some(i) => {
                &&& i < v@.len()
                &&& v@[i as int].0@ == name@
                &&& assoc_lookup(v@, name@) == Some(v@[i as int].1)
                &&& forall|j: int| 0 <= j < i ==> v@[j].0@ != name@
            },
            None => assoc_lookup(v@, name@) is None,
        },
{
    let n = v.len();
    let mut i: usize = 0;
    while i < n
        invariant
            n == v@.len(),
            i <= n,
            forall|j: int| 0 <= j < i ==> v@[j].0@ != name@,
        decreases n - i,
    {
        if str_eq(v[i].0.as_str(), name) {
            proof {
                lemma_assoc_lookup_skip(v@, name@, i as int);
                assert(v@.skip(i as int)[0] == v@[i as int]);
            }
            return Some(i);
        }
        i = i + 1;
    }
    proof {
        lemma_assoc_lookup_skip(v@, name@, n as int);
        assert(v@.skip(n as int) =~= Seq::<(String, T)>::empty());
    }
    None
}

/// An absent key matches no pair at all.
pub proof fn lemma_assoc_none_means_absent<T>(s: Seq<(String, T)>, name: Seq<char>)
    requires
        assoc_lookup(s, name) is None,
    ensures
        forall|j: int| 0 <= j < s.len() ==> s[j].0@ != name,
    decreases s.len(),
{
    if s.len() > 0 {
        lemma_assoc_none_means_absent(s.drop_first(), name);
        assert forall|j: int| 0 <= j < s.len() implies s[j].0@ != name by {
            if j > 0 {
                assert(s.drop_first()[j - 1] == s[j]);
            }
        }
    }
}

/// Replacing the value of the first pair bound to `name` rebinds `name`.
pub proof fn lemma_assoc_update_same<T>(s: Seq<(String, T)>, i: int, v: T, name: Seq<char>)
    requires
        0 <= i < s.len(),
        s[i].0@ == name,
        forall|j: int| 0 <= j < i ==> s[j].0@ != name,
    ensures
        assoc_lookup(s.update(i, (s[i].0, v)), name) == Some(v),
    decreases i,
{
    let s2 = s.update(i, (s[i].0, v));
    if i == 0 {
        assert(s2[0] == (s[0].0, v));
    } else {
        assert(s2[0] == s[0]);
        assert(s2.drop_first() =~= s.drop_first().update(i - 1, (s[i].0, v)));
        assert(s.drop_first()[i - 1] == s[i]);
        lemma_assoc_update_same(s.drop_first(), i - 1, v, name);
    }
}

/// Replacing one pair's value leaves every other key's binding alone.
pub proof fn lemma_assoc_update_other<T>(s: Seq<(String, T)>, i: int, v: T, other: Seq<char>)
    requires
        0 <= i < s.len(),
        s[i].0@ != other,
    ensures
        assoc_lookup(s.update(i, (s[i].0, v)), other) == assoc_lookup(s, other),
    decreases s.len(),
{
    let s2 = s.update(i, (s[i].0, v));
    if i == 0 {
        assert(s2[0] == (s[0].0, v));
        assert(s2.drop_first() =~= s.drop_first());
    } else {
        assert(s2[0] == s[0]);
        if s[0].0@ != other {
            assert(s2.drop_first() =~= s.drop_first().update(i - 1, (s[i].0, v)));
            assert(s.drop_first()[i - 1] == s[i]);
            lemma_assoc_update_other(s.drop_first(), i - 1, v, other);
        }
    }
}

/// Appending a pair with a fresh key binds that key.
pub proof fn lemma_assoc_push_found<T>(s: Seq<(String, T)>, pair: (String, T))
    requires
        assoc_lookup(s, pair.0@) is None,
    ensures
        assoc_lookup(s.push(pair), pair.0@) == Some(pair.1),
    decreases s.len(),
{
    if s.len() == 0 {
        assert(s.push(pair)[0] == pair);
    } else {
        assert(s.push(pair)[0] == s[0]);
        assert(s.push(pair).drop_first() =~= s.drop_first().push(pair));
        lemma_assoc_push_found(s.drop_first(), pair);
    }
}

/// Appending a pair leaves every other key's binding alone.
pub proof fn lemma_assoc_push_other<T>(s: Seq<(String, T)>, pair: (String, T), other: Seq<char>)
    requires
        pair.0@ != other,
    ensures
        assoc_lookup(s.push(pair), other) == assoc_lookup(s, other),
    decreases s.len(),
{
    if s.len() == 0 {
        assert(s.push(pair)[0] == pair);
        assert(s.push(pair).drop_first() =~= s);
        assert(assoc_lookup(s.push(pair), other) == assoc_lookup(s, other));
    } else {
        assert(s.push(pair)[0] == s[0]);
        assert(s.push(pair).drop_first() =~= s.drop_first().push(pair));
        lemma_assoc_push_other(s.drop_first(), pair, other);
    }
}

/// Whether some element of `l` views to `x`.
pub open spec fn spec_list_has(l: Seq<String>, x: Seq<char>) -> bool {
    exists|i: int| 0 <= i < l.len() && l[i]@ == x
}

pub fn list_has(v: &Vec<String>, x: &str) -> (r: bool)
    ensures
        r == spec_list_has(v@, x@),
{
    let n = v.len();
    let mut i: usize = 0;
    while i < n
        invariant
            n == v@.len(),
            i <= n,
            forall|j: int| 0 <= j < i ==> v@[j]@ != x@,
        decreases n - i,
    {
        if str_eq(v[i].as_str(), x) {
            return true;
        }
        i = i + 1;
    }
    false
}

} // verus!
