//! Sequences of key/value pairs read as finite maps.
//!
//! A sequence stands for the map in which each key holds the value of the last
//! pair with that key. The stores of the trade guard keep their keys unique,
//! add by `push` and take away by `filter`; the lemmas here carry those two
//! operations over to the map.
use vstd::prelude::*;

verus! {

/// The value of the last pair in `s` whose key is `k`.
pub open spec fn lookup<K, V>(s: Seq<(K, V)>, k: K) -> Option<V>
    decreases s.len(),
{
    if s.len() == 0 {
        None
    } else if s.last().0 == k {
        Some(s.last().1)
    } else {
        lookup(s.drop_last(), k)
    }
}

/// No two pairs of `s` share a key.
pub open spec fn keys_unique<K, V>(s: Seq<(K, V)>) -> bool
    decreases s.len(),
{
    s.len() == 0 || (lookup(s.drop_last(), s.last().0) is None && keys_unique(s.drop_last()))
}

/// The map that `s` stands for.
pub open spec fn as_map<K, V>(s: Seq<(K, V)>) -> Map<K, V> {
    Map::new(|k: K| lookup(s, k) is Some, |k: K| lookup(s, k)->0)
}

/// The entries of `m` whose pair satisfies `p`.
pub open spec fn restrict<K, V>(m: Map<K, V>, p: spec_fn((K, V)) -> bool) -> Map<K, V> {
    Map::new(|k: K| m.dom().contains(k) && p((k, m[k])), |k: K| m[k])
}

/// Looking up after a push.
pub proof fn lemma_lookup_push<K, V>(s: Seq<(K, V)>, e: (K, V), k: K)
    ensures
        lookup(s.push(e), k) == (if e.0 == k {
            Some(e.1)
        } else {
            lookup(s, k)
        }),
        keys_unique(s.push(e)) == (lookup(s, e.0) is None && keys_unique(s)),
{
    assert(s.push(e).drop_last() =~= s);
}

/// A pushed pair shows up in the map as an insertion.
pub proof fn lemma_map_push<K, V>(s: Seq<(K, V)>, e: (K, V))
    ensures
        as_map(s.push(e)) == as_map(s).insert(e.0, e.1),
        keys_unique(s.push(e)) == (!as_map(s).dom().contains(e.0) && keys_unique(s)),
{
    assert forall|k: K| #[trigger] lookup(s.push(e), k) == (if e.0 == k {
        Some(e.1)
    } else {
        lookup(s, k)
    }) by {
        lemma_lookup_push(s, e, k);
    }
    lemma_lookup_push(s, e, e.0);
    assert(as_map(s.push(e)) =~= as_map(s).insert(e.0, e.1));
}

/// Looking up after a filter, on a sequence with unique keys.
pub proof fn lemma_lookup_filter<K, V>(s: Seq<(K, V)>, p: spec_fn((K, V)) -> bool, k: K)
    requires
        keys_unique(s),
    ensures
        keys_unique(s.filter(p)),
        lookup(s.filter(p), k) == (match lookup(s, k) {
            Some(v) => if p((k, v)) {
                Some(v)
            } else {
                None
            },
            None => None,
        }),
    decreases s.len(),
{
    if s.len() > 0 {
        let t = s.drop_last();
        let e = s.last();
        lemma_lookup_filter(t, p, k);
        lemma_lookup_filter(t, p, e.0);
        reveal(Seq::filter);
        assert(s.filter(p) == (if p(e) {
            t.filter(p).push(e)
        } else {
            t.filter(p)
        }));
        if p(e) {
            lemma_lookup_push(t.filter(p), e, k);
        }
    }
}

/// A filter shows up in the map as a restriction, on a sequence with unique keys.
pub proof fn lemma_map_filter<K, V>(s: Seq<(K, V)>, p: spec_fn((K, V)) -> bool)
    requires
        keys_unique(s),
    ensures
        keys_unique(s.filter(p)),
        as_map(s.filter(p)) == restrict(as_map(s), p),
{
    assert forall|k: K| #[trigger] lookup(s.filter(p), k) == (match lookup(s, k) {
        Some(v) => if p((k, v)) {
            Some(v)
        } else {
            None
        },
        None => None,
    }) by {
        lemma_lookup_filter(s, p, k);
    }
    if s.len() == 0 {
        reveal(Seq::filter);
        assert(s.filter(p) =~= s);
    } else {
        lemma_lookup_filter(s, p, s.last().0);
    }
    assert(as_map(s.filter(p)) =~= restrict(as_map(s), p));
}

/// A key has a value exactly when some pair carries it.
pub proof fn lemma_lookup_some_iff_present<K, V>(s: Seq<(K, V)>, k: K)
    ensures
        lookup(s, k) is Some <==> exists|j: int| 0 <= j < s.len() && #[trigger] s[j].0 == k,
    decreases s.len(),
{
    if s.len() > 0 {
        let t = s.drop_last();
        lemma_lookup_some_iff_present(t, k);
        if lookup(t, k) is Some {
            let j = choose|j: int| 0 <= j < t.len() && #[trigger] t[j].0 == k;
            assert(s[j].0 == k);
        }
        if exists|j: int| 0 <= j < s.len() && #[trigger] s[j].0 == k {
            let j = choose|j: int| 0 <= j < s.len() && #[trigger] s[j].0 == k;
            if j < s.len() - 1 {
                assert(t[j].0 == k);
            }
        }
    }
}

/// One more element of a prefix, filtered.
pub proof fn lemma_filter_take_step<A>(s: Seq<A>, p: spec_fn(A) -> bool, i: int)
    requires
        0 <= i < s.len(),
    ensures
        s.take(i + 1).filter(p) == (if p(s[i]) {
            s.take(i).filter(p).push(s[i])
        } else {
            s.take(i).filter(p)
        }),
{
    reveal(Seq::filter);
    assert(s.take(i + 1).drop_last() =~= s.take(i));
    assert(s.take(i + 1).last() == s[i]);
}

/// Mapping commutes with push.
pub proof fn lemma_map_values_push<A, B>(s: Seq<A>, x: A, f: spec_fn(A) -> B)
    ensures
        s.push(x).map_values(f) == s.map_values(f).push(f(x)),
{
    assert(s.push(x).map_values(f) =~= s.map_values(f).push(f(x)));
}

} // verus!
