//! Keyed lists: the mathematical model of every map in this crate.
//!
//! A keyed list is a sequence of pairs in which no key occurs twice. It stands
//! for a map that remembers the order in which its keys first came in.

use vstd::prelude::*;

verus! {

/// No key occurs twice.
pub open spec fn keyed<K, V>(s: Seq<(K, V)>) -> bool {
    forall|i: int, j: int| 0 <= i < j < s.len() ==> (#[trigger] s[i]).0 != (#[trigger] s[j]).0
}

/// Some pair of `s` has the key `k`.
pub open spec fn has<K, V>(s: Seq<(K, V)>, k: K) -> bool {
    exists|i: int| 0 <= i < s.len() && (#[trigger] s[i]).0 == k
}

/// Where the pair with key `k` stands.
pub open spec fn place<K, V>(s: Seq<(K, V)>, k: K) -> int {
    choose|i: int| 0 <= i < s.len() && (#[trigger] s[i]).0 == k
}

/// The value kept under `k`.
pub open spec fn value<K, V>(s: Seq<(K, V)>, k: K) -> V {
    s[place(s, k)].1
}

/// `s` with `v` kept under `k`: in the old place if `k` was there, at the end if not.
pub open spec fn put<K, V>(s: Seq<(K, V)>, k: K, v: V) -> Seq<(K, V)> {
    if has(s, k) {
        s.update(place(s, k), (k, v))
    } else {
        s.push((k, v))
    }
}

/// `s` without the pair whose key is `k`; the others keep their order.
pub open spec fn without<K, V>(s: Seq<(K, V)>, k: K) -> Seq<(K, V)> {
    if has(s, k) {
        s.remove(place(s, k))
    } else {
        s
    }
}

/// In a keyed list the place of a pair is found by its key.
pub proof fn lemma_place<K, V>(s: Seq<(K, V)>, i: int)
    requires
        keyed(s),
        0 <= i < s.len(),
    ensures
        has(s, s[i].0),
        place(s, s[i].0) == i,
        value(s, s[i].0) == s[i].1,
{
    let k = s[i].0;
    let j = place(s, k);
    assert(0 <= j < s.len() && s[j].0 == k);
    if j < i {
        assert(s[j].0 != s[i].0);
    } else if i < j {
        assert(s[i].0 != s[j].0);
    }
}

/// What is put under a key is found there, and nothing else changes.
pub proof fn lemma_put_value<K, V>(s: Seq<(K, V)>, k: K, v: V)
    requires
        keyed(s),
    ensures
        keyed(put(s, k, v)),
        has(put(s, k, v), k),
        value(put(s, k, v), k) == v,
        put(s, k, v)[place(put(s, k, v), k)] == (k, v),
        forall|q: K| q != k ==> (#[trigger] has(put(s, k, v), q) <==> has(s, q)),
        forall|q: K| q != k && has(s, q) ==> #[trigger] value(put(s, k, v), q) == value(s, q),
        forall|q: K| q != k && has(s, q) ==> #[trigger] place(put(s, k, v), q) == place(s, q),
{
    let t = put(s, k, v);
    let at = if has(s, k) {
        place(s, k)
    } else {
        s.len() as int
    };
    assert(t[at] == (k, v));
    lemma_place(t, at);
    assert forall|q: K| q != k implies (#[trigger] has(t, q) <==> has(s, q)) by {
        if has(t, q) {
            let i = place(t, q);
            assert(s[i].0 == q);
        }
        if has(s, q) {
            let i = place(s, q);
            assert(t[i].0 == q);
        }
    }
    assert forall|q: K| q != k && has(s, q) implies #[trigger] place(t, q) == place(s, q) && value(
        t,
        q,
    ) == value(s, q) by {
        let i = place(s, q);
        assert(t[i] == s[i]);
        lemma_place(t, i);
    }
}

/// What is taken out from under a key is not found there any more, and nothing else changes.
pub proof fn lemma_without_value<K, V>(s: Seq<(K, V)>, k: K)
    requires
        keyed(s),
    ensures
        keyed(without(s, k)),
        !self::has(without(s, k), k),
        forall|q: K| q != k ==> (#[trigger] has(without(s, k), q) <==> has(s, q)),
        forall|q: K| q != k && has(s, q) ==> #[trigger] value(without(s, k), q) == value(s, q),
{
    let t = without(s, k);
    if has(s, k) {
        let at = place(s, k);
        assert forall|i: int| 0 <= i < t.len() implies #[trigger] t[i] == s[if i < at {
            i
        } else {
            i + 1
        }] by {}
        assert(keyed(t));
        if has(t, k) {
            let i = place(t, k);
            assert(t[i].0 == k);
            lemma_place(s, if i < at {
                i
            } else {
                i + 1
            });
            assert(false);
        }
        assert forall|q: K| q != k implies (#[trigger] has(t, q) <==> has(s, q)) by {
            if has(t, q) {
                let i = place(t, q);
                assert(s[if i < at {
                    i
                } else {
                    i + 1
                }].0 == q);
            }
            if has(s, q) {
                let i = place(s, q);
                assert(t[if i < at {
                    i
                } else {
                    i - 1
                }].0 == q);
            }
        }
        assert forall|q: K| q != k && has(s, q) implies #[trigger] value(t, q) == value(s, q) by {
            let i = place(s, q);
            let j = if i < at {
                i
            } else {
                i - 1
            };
            assert(t[j] == s[i]);
            lemma_place(t, j);
        }
    }
}

/// In a part of a keyed list that is picked pair by pair, each key that was picked has its value.
pub proof fn lemma_filter_value<K, V>(s: Seq<(K, V)>, p: spec_fn((K, V)) -> bool)
    requires
        keyed(s),
    ensures
        keyed(s.filter(p)),
        forall|k: K| #[trigger] has(s.filter(p), k) <==> has(s, k) && p((k, value(s, k))),
        forall|k: K| has(s.filter(p), k) ==> #[trigger] value(s.filter(p), k) == value(s, k),
    decreases s.len(),
{
    reveal(Seq::filter);
    let t = s.filter(p);
    if s.len() > 0 {
        let shorter = s.drop_last();
        lemma_filter_value(shorter, p);
        let u = shorter.filter(p);
        let (last, v) = s.last();
        assert(!self::has(shorter, last)) by {
            if has(shorter, last) {
                let i = place(shorter, last);
                assert(s[i].0 == s[s.len() - 1].0);
            }
        }
        lemma_place(s, s.len() - 1);
        assert(!self::has(u, last));
        assert forall|k: K| k != last implies (has(s, k) <==> #[trigger] has(shorter, k)) && (has(
            s,
            k,
        ) ==> value(s, k) == value(shorter, k)) by {
            if has(s, k) {
                let i = place(s, k);
                assert(shorter[i] == s[i]);
                lemma_place(shorter, i);
            }
            if has(shorter, k) {
                let i = place(shorter, k);
                assert(shorter[i] == s[i]);
                lemma_place(s, i);
            }
        }
        if p(s.last()) {
            assert(t == u.push(s.last()));
            assert(put(u, last, v) == t);
            lemma_put_value(u, last, v);
        } else {
            assert(t == u);
        }
        assert forall|k: K| #[trigger] has(t, k) <==> has(s, k) && p((k, value(s, k))) by {
            if k == last {
                assert(value(s, k) == v);
            } else {
                assert(has(t, k) <==> has(u, k));
                assert(has(s, k) <==> has(shorter, k));
            }
        }
        assert forall|k: K| has(t, k) implies #[trigger] value(t, k) == value(s, k) by {
            if k != last {
                assert(has(u, k));
                assert(has(shorter, k));
                assert(value(u, k) == value(shorter, k));
            }
        }
    }
}

/// Two lists with the same keys in the same places find the same keys in the same places.
pub proof fn lemma_same_keys<K, V>(s: Seq<(K, V)>, t: Seq<(K, V)>)
    requires
        keyed(s),
        s.len() == t.len(),
        forall|i: int| 0 <= i < s.len() ==> (#[trigger] s[i]).0 == t[i].0,
    ensures
        keyed(t),
        forall|k: K| #[trigger] has(t, k) <==> has(s, k),
        forall|k: K| has(s, k) ==> #[trigger] place(t, k) == place(s, k),
{
    assert forall|i: int, j: int| 0 <= i < j < t.len() implies (#[trigger] t[i]).0 != (
    #[trigger] t[j]).0 by {
        assert(s[i].0 != s[j].0);
    }
    assert forall|k: K| #[trigger] has(t, k) <==> has(s, k) by {
        if has(t, k) {
            let i = place(t, k);
            assert(s[i].0 == k);
        }
        if has(s, k) {
            let i = place(s, k);
            assert(t[i].0 == k);
        }
    }
    assert forall|k: K| has(s, k) implies #[trigger] place(t, k) == place(s, k) by {
        let i = place(s, k);
        assert(s[i].0 == t[i].0);
        lemma_place(t, i);
    }
}

/// Taking out what was just put under a new key undoes the putting.
pub proof fn law_without_undoes_put<K, V>(s: Seq<(K, V)>, k: K, v: V)
    requires
        keyed(s),
        !self::has(s, k),
    ensures
        without(put(s, k, v), k) == s,
{
    lemma_put_value(s, k, v);
    lemma_place(put(s, k, v), s.len() as int);
    assert(without(put(s, k, v), k) =~= s);
}

/// A key that is new comes last, and no key moves when something is put under it.
pub proof fn law_keys_stay_in_order<K, V>(s: Seq<(K, V)>, k: K, v: V)
    requires
        keyed(s),
    ensures
        !self::has(s, k) ==> put(s, k, v) == s.push((k, v)),
        has(s, k) ==> put(s, k, v).len() == s.len(),
        forall|i: int|
            0 <= i < s.len() ==> (#[trigger] put(s, k, v)[i]).0 == s[i].0 && put(s, k, v)[i].1
                == if s[i].0 == k {
                v
            } else {
                s[i].1
            },
{
    if self::has(s, k) {
        let at = place(s, k);
        assert(s[at].0 == k);
        assert forall|i: int| 0 <= i < s.len() && i != at implies (#[trigger] s[i]).0 != k by {
            if i < at {
                assert(s[i].0 != s[at].0);
            } else {
                assert(s[at].0 != s[i].0);
            }
        }
        assert forall|i: int| 0 <= i < s.len() implies (#[trigger] put(s, k, v)[i]).0 == s[i].0
            && put(s, k, v)[i].1 == if s[i].0 == k {
            v
        } else {
            s[i].1
        } by {
            assert(i != at ==> s[i].0 != k);
        }
    } else {
        assert forall|i: int| 0 <= i < s.len() implies (#[trigger] put(s, k, v)[i]) == s[i]
            && s[i].0 != k by {}
    }
}

/// When something is taken out from under a key, the other keys close ranks.
pub proof fn law_keys_close_ranks<K, V>(s: Seq<(K, V)>, at: int)
    requires
        keyed(s),
        0 <= at < s.len(),
    ensures
        without(s, s[at].0) == s.remove(at),
{
    lemma_place(s, at);
}

/// What is kept under a key is what stands beside it.
pub proof fn law_keys_are_found<K, V>(s: Seq<(K, V)>, k: K)
    requires
        keyed(s),
    ensures
        self::has(s, k) <==> exists|i: int| 0 <= i < s.len() && (#[trigger] s[i]).0 == k,
        forall|i: int| 0 <= i < s.len() && (#[trigger] s[i]).0 == k ==> value(s, k) == s[i].1,
{
    assert forall|i: int| 0 <= i < s.len() && (#[trigger] s[i]).0 == k implies value(s, k)
        == s[i].1 by {
        lemma_place(s, i);
    }
}

/// What is put under a key twice is there as it was put last.
pub proof fn law_last_put_counts<K, V>(s: Seq<(K, V)>, k: K, v: V, w: V)
    requires
        keyed(s),
    ensures
        put(put(s, k, v), k, w) == put(s, k, w),
{
    lemma_put_value(s, k, v);
    if self::has(s, k) {
        lemma_place(put(s, k, v), place(s, k));
    } else {
        lemma_place(put(s, k, v), s.len() as int);
    }
    assert(put(put(s, k, v), k, w) =~= put(s, k, w));
}

} // verus!
