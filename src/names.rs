//! Ordered lists of names: membership, appending once, removing the first match.

use vstd::prelude::*;
use crate::text::str_eq;

verus! {

/// The characters of each string, in order.
pub open spec fn names_of(v: Seq<String>) -> Seq<Seq<char>> {
    v.map_values(|s: String| s@)
}

/// `acc` with `x` appended, unless it already holds `x`.
pub open spec fn push_absent(acc: Seq<Seq<char>>, x: Seq<char>) -> Seq<Seq<char>> {
    if acc.contains(x) {
        acc
    } else {
        acc.push(x)
    }
}

/// Whether `i` is the first position of `x` in `s`.
pub open spec fn is_first_index(s: Seq<Seq<char>>, x: Seq<char>, i: int) -> bool {
    0 <= i < s.len() && s[i] == x && forall|j: int| 0 <= j < i ==> s[j] != x
}

/// `s` without its first occurrence of `x`, if it has one.
pub open spec fn remove_first(s: Seq<Seq<char>>, x: Seq<char>) -> Seq<Seq<char>> {
    if s.contains(x) {
        s.remove(choose|i: int| is_first_index(s, x, i))
    } else {
        s
    }
}

/// `acc` extended by each name of `xs` that it does not hold yet, in order.
pub open spec fn merge(acc: Seq<Seq<char>>, xs: Seq<Seq<char>>) -> Seq<Seq<char>>
    decreases xs.len(),
{
    if xs.len() == 0 {
        acc
    } else {
        push_absent(merge(acc, xs.drop_last()), xs.last())
    }
}

/// The position of the first string in `v` equal to `x`, if any.
pub fn position(v: &Vec<String>, x: &str) -> (r: Option<usize>)
    ensures
        r matches Some(i) ==> is_first_index(names_of(v@), x@, i as int),
        r is None ==> !names_of(v@).contains(x@),
{
    let mut i: usize = 0;
    while i < v.len()
        invariant
            i <= v@.len(),
            forall|j: int| 0 <= j < i ==> names_of(v@)[j] != x@,
        decreases v@.len() - i,
    {
        if str_eq(v[i].as_str(), x) {
            return Some(i);
        }
        i = i + 1;
    }
    proof {
        if names_of(v@).contains(x@) {
            let k = choose|k: int| 0 <= k < names_of(v@).len() && names_of(v@)[k] == x@;
            assert(names_of(v@)[k] != x@);
        }
    }
    None
}

/// Appends `x` to `v` unless `v` already holds it.
pub fn push_if_absent(v: &mut Vec<String>, x: String)
    ensures
        names_of(final(v)@) == push_absent(names_of(old(v)@), x@),
{
    if position(v, x.as_str()).is_none() {
        v.push(x);
        assert(names_of(v@) == names_of(old(v)@).push(x@));
    }
}

/// Removes the first string of `v` equal to `x`, if there is one.
pub fn remove_first_match(v: &mut Vec<String>, x: &str)
    ensures
        names_of(final(v)@) == remove_first(names_of(old(v)@), x@),
{
    match position(v, x) {
        Some(i) => {
            let ghost s = names_of(v@);
            proof {
                assert(s.contains(x@));
                let c = choose|c: int| is_first_index(s, x@, c);
                assert(is_first_index(s, x@, c));
                if c < i {
                    assert(s[c] != x@);
                }
                if c > i as int {
                    assert(s[i as int] != x@);
                }
                assert(c == i);
            }
            v.remove(i);
            assert(names_of(v@) == s.remove(i as int));
        },
        None => {},
    }
}

/// The first position of `x` in `s`, or -1 when `s` does not hold it.
pub open spec fn index_of(s: Seq<Seq<char>>, x: Seq<char>) -> int
    decreases s.len(),
{
    if s.len() == 0 {
        -1
    } else {
        let k = index_of(s.drop_last(), x);
        if k >= 0 {
            k
        } else if s.last() == x {
            s.len() - 1
        } else {
            -1
        }
    }
}

/// `index_of` finds a position of `x` exactly when `s` holds `x`, and the
/// position it finds holds `x`.
pub proof fn lemma_index_of(s: Seq<Seq<char>>, x: Seq<char>)
    ensures
        -1 <= index_of(s, x) < s.len(),
        index_of(s, x) >= 0 <==> s.contains(x),
        index_of(s, x) >= 0 ==> s[index_of(s, x)] == x,
        forall|j: int| 0 <= j < index_of(s, x) ==> s[j] != x,
    decreases s.len(),
{
    if s.len() > 0 {
        lemma_index_of(s.drop_last(), x);
        if index_of(s.drop_last(), x) < 0 {
            assert forall|j: int| 0 <= j < s.len() - 1 implies s[j] != x by {
                assert(s.drop_last()[j] == s[j]);
            }
        } else {
            assert forall|j: int| 0 <= j < index_of(s, x) implies s[j] != x by {
                assert(s.drop_last()[j] == s[j]);
            }
        }
        if s.contains(x) && index_of(s.drop_last(), x) < 0 {
            let k = choose|k: int| 0 <= k < s.len() && s[k] == x;
            if k < s.len() - 1 {
                assert(s.drop_last()[k] == x);
            }
        }
    }
}

/// In a sequence without duplicates, each element is found at its own position.
pub proof fn lemma_index_of_unique(s: Seq<Seq<char>>, i: int)
    requires
        s.no_duplicates(),
        0 <= i < s.len(),
    ensures
        index_of(s, s[i]) == i,
{
    lemma_index_of(s, s[i]);
    let k = index_of(s, s[i]);
    assert(s.contains(s[i]));
    if k != i {
        assert(s[k] == s[i]);
    }
}

/// Once a prefix of `s` holds `x`, the first position of `x` in `s` is the
/// one in that prefix.
pub proof fn lemma_index_of_prefix(s: Seq<Seq<char>>, x: Seq<char>, j: int)
    requires
        0 <= j <= s.len(),
        index_of(s.subrange(0, j), x) >= 0,
    ensures
        index_of(s, x) == index_of(s.subrange(0, j), x),
    decreases s.len() - j,
{
    if j < s.len() {
        assert(s.subrange(0, j + 1).drop_last() == s.subrange(0, j));
        lemma_index_of_prefix(s, x, j + 1);
    } else {
        assert(s.subrange(0, j) == s);
    }
}

/// Searching the names of a prefix entry by entry.
pub proof fn lemma_index_of_step(s: Seq<Seq<char>>, x: Seq<char>, i: int)
    requires
        0 <= i < s.len(),
        index_of(s.subrange(0, i), x) < 0,
    ensures
        s[i] == x ==> index_of(s, x) == i,
        s[i] != x ==> index_of(s.subrange(0, i + 1), x) < 0,
{
    assert(s.subrange(0, i + 1).drop_last() == s.subrange(0, i));
    if s[i] == x {
        lemma_index_of_prefix(s, x, i + 1);
    }
}

} // verus!

