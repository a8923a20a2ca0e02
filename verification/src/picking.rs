//! What can be said of the items that are picked out of a list.

use vstd::prelude::*;

verus! {

/// What is picked out of a list stands in the order in which it stood there.
pub proof fn lemma_filter_order<A>(s: Seq<A>, p: spec_fn(A) -> bool, i: int, j: int) -> (at: (int, int))
    requires
        0 <= i < j < s.filter(p).len(),
    ensures
        0 <= at.0 < at.1 < s.len(),
        s[at.0] == s.filter(p)[i],
        s[at.1] == s.filter(p)[j],
    decreases s.len(),
{
    reveal(Seq::filter);
    let shorter = s.drop_last();
    if p(s.last()) && j == s.filter(p).len() - 1 {
        shorter.lemma_filter_contains_rev(p, s.filter(p)[i]);
        let k = choose|k: int| 0 <= k < shorter.len() && shorter[k] == s.filter(p)[i];
        (k, s.len() - 1)
    } else {
        lemma_filter_order(shorter, p, i, j)
    }
}

/// What stands before something that is picked out of a list is picked before it, if it is picked.
pub proof fn lemma_filter_before<A>(s: Seq<A>, p: spec_fn(A) -> bool, x: int, y: int, j: int) -> (i: int)
    requires
        s.no_duplicates(),
        0 <= x < y < s.len(),
        p(s[x]),
        0 <= j < s.filter(p).len(),
        s.filter(p)[j] == s[y],
    ensures
        0 <= i < j,
        s.filter(p)[i] == s[x],
    decreases s.len(),
{
    reveal(Seq::filter);
    let shorter = s.drop_last();
    let found = shorter.filter(p);
    if y == s.len() - 1 {
        if j < found.len() {
            shorter.lemma_filter_contains_rev(p, found[j]);
            let k = choose|k: int| 0 <= k < shorter.len() && shorter[k] == found[j];
            assert(s[k] == s[y]);
        }
        shorter.lemma_filter_contains(p, x);
        choose|i: int| 0 <= i < found.len() && found[i] == s[x]
    } else {
        if j == found.len() {
            assert(s[s.len() - 1] == s[y]);
        }
        lemma_filter_before(shorter, p, x, y, j)
    }
}

/// What agrees on each item picks the same items.
pub proof fn lemma_same_filter<A>(s: Seq<A>, p: spec_fn(A) -> bool, q: spec_fn(A) -> bool)
    requires
        forall|e: A| #[trigger] p(e) == q(e),
    ensures
        s.filter(p) == s.filter(q),
    decreases s.len(),
{
    reveal(Seq::filter);
    if s.len() > 0 {
        lemma_same_filter(s.drop_last(), p, q);
        assert(p(s.last()) == q(s.last()));
    }
}

/// What is picked first is the first that can be picked.
pub proof fn lemma_filter_first<A>(s: Seq<A>, p: spec_fn(A) -> bool) -> (i: int)
    requires
        s.filter(p).len() > 0,
    ensures
        0 <= i < s.len(),
        s[i] == s.filter(p)[0],
        p(s[i]),
        forall|j: int| 0 <= j < i ==> !p(#[trigger] s[j]),
    decreases s.len(),
{
    reveal(Seq::filter);
    let shorter = s.drop_last();
    if shorter.filter(p).len() > 0 {
        let i = lemma_filter_first(shorter, p);
        assert forall|j: int| 0 <= j < i implies !p(#[trigger] s[j]) by {
            assert(shorter[j] == s[j]);
        }
        i
    } else {
        assert forall|j: int| 0 <= j < s.len() - 1 implies !p(#[trigger] s[j]) by {
            if p(s[j]) {
                assert(shorter[j] == s[j]);
                shorter.lemma_filter_contains(p, j);
            }
        }
        s.len() - 1
    }
}

/// Lists that differ only in what is not picked are picked alike.
pub proof fn lemma_filter_alike<A>(s: Seq<A>, t: Seq<A>, p: spec_fn(A) -> bool, q: spec_fn(A) -> bool)
    requires
        s.len() == t.len(),
        forall|i: int|
            0 <= i < s.len() ==> p(#[trigger] s[i]) == q(t[i]) && (p(s[i]) ==> s[i] == t[i]),
    ensures
        s.filter(p) == t.filter(q),
    decreases s.len(),
{
    reveal(Seq::filter);
    if s.len() > 0 {
        let n = s.len() - 1;
        assert forall|i: int| 0 <= i < n implies p(#[trigger] s.drop_last()[i]) == q(
            t.drop_last()[i],
        ) && (p(s.drop_last()[i]) ==> s.drop_last()[i] == t.drop_last()[i]) by {
            assert(s[i] == s.drop_last()[i]);
        }
        lemma_filter_alike(s.drop_last(), t.drop_last(), p, q);
        assert(p(s[n]) == q(t[n]) && (p(s[n]) ==> s[n] == t[n]));
    }
}

} // verus!
