//! Sequences of key/value pairs read as maps.
//!
//! The caches keep their entries in vectors. A vector of entries stands for
//! the map in which a later pair with some key overrides an earlier one; the
//! caches keep the keys distinct, so that each key has exactly one pair.

use vstd::prelude::*;

verus! {

/// The map that a sequence of pairs stands for: a later pair wins.
pub open spec fn assoc_map<K, V>(s: Seq<(K, V)>) -> Map<K, V>
    decreases s.len(),
{
    if s.len() == 0 {
        Map::empty()
    } else {
        assoc_map(s.drop_last()).insert(s.last().0, s.last().1)
    }
}

/// No key occurs in two pairs.
pub open spec fn distinct_keys<K, V>(s: Seq<(K, V)>) -> bool {
    forall|i: int, j: int| 0 <= i < j < s.len() ==> (#[trigger] s[i]).0 != (#[trigger] s[j]).0
}

/// Some pair has the key `k`.
pub open spec fn has_key<K, V>(s: Seq<(K, V)>, k: K) -> bool {
    exists|i: int| 0 <= i < s.len() && (#[trigger] s[i]).0 == k
}

/// A key is in the map exactly when some pair carries it.
pub proof fn lemma_assoc_contains<K, V>(s: Seq<(K, V)>, k: K)
    ensures
        assoc_map(s).contains_key(k) <==> has_key(s, k),
    decreases s.len(),
{
    if s.len() > 0 {
        let t = s.drop_last();
        lemma_assoc_contains(t, k);
        if has_key(t, k) {
            let i = choose|i: int| 0 <= i < t.len() && (#[trigger] t[i]).0 == k;
            assert(s[i] == t[i]);
        }
        if s.last().0 == k {
            assert(s[s.len() - 1].0 == k);
        }
        if has_key(s, k) {
            let i = choose|i: int| 0 <= i < s.len() && (#[trigger] s[i]).0 == k;
            if i < t.len() {
                assert(t[i] == s[i]);
            }
        }
    }
}

/// The value under a key is that of the last pair that carries the key.
pub proof fn lemma_assoc_last_wins<K, V>(s: Seq<(K, V)>, i: int)
    requires
        0 <= i < s.len(),
        forall|j: int| i < j < s.len() ==> (#[trigger] s[j]).0 != s[i].0,
    ensures
        assoc_map(s).contains_key(s[i].0),
        assoc_map(s)[s[i].0] == s[i].1,
    decreases s.len(),
{
    if i < s.len() - 1 {
        let t = s.drop_last();
        assert(t[i] == s[i]);
        assert forall|j: int| i < j < t.len() implies (#[trigger] t[j]).0 != t[i].0 by {
            assert(t[j] == s[j]);
        }
        lemma_assoc_last_wins(t, i);
        assert(s[s.len() - 1].0 != s[i].0);
    }
}

/// With distinct keys, every pair is in the map.
pub proof fn lemma_assoc_index<K, V>(s: Seq<(K, V)>, i: int)
    requires
        distinct_keys(s),
        0 <= i < s.len(),
    ensures
        assoc_map(s).contains_key(s[i].0),
        assoc_map(s)[s[i].0] == s[i].1,
{
    lemma_assoc_last_wins(s, i);
}

/// Appending a pair inserts it into the map.
pub proof fn lemma_assoc_push<K, V>(s: Seq<(K, V)>, k: K, v: V)
    ensures
        assoc_map(s.push((k, v))) == assoc_map(s).insert(k, v),
        distinct_keys(s) && !has_key(s, k) ==> distinct_keys(s.push((k, v))),
{
    let t = s.push((k, v));
    assert(t.drop_last() =~= s);
    if distinct_keys(s) && !has_key(s, k) {
        assert forall|i: int, j: int| 0 <= i < j < t.len() implies (#[trigger] t[i]).0 != (
        #[trigger] t[j]).0 by {
            assert(t[i] == s[i]);
            if j < s.len() {
                assert(t[j] == s[j]);
            }
        }
    }
}

/// Replacing the value of the pair at `i` replaces the value under its key.
pub proof fn lemma_assoc_update<K, V>(s: Seq<(K, V)>, i: int, v: V)
    requires
        distinct_keys(s),
        0 <= i < s.len(),
    ensures
        distinct_keys(s.update(i, (s[i].0, v))),
        assoc_map(s.update(i, (s[i].0, v))) == assoc_map(s).insert(s[i].0, v),
{
    let k = s[i].0;
    let u = s.update(i, (k, v));
    assert forall|a: int, b: int| 0 <= a < b < u.len() implies (#[trigger] u[a]).0 != (
    #[trigger] u[b]).0 by {
        assert(u[a].0 == s[a].0);
        assert(u[b].0 == s[b].0);
    }
    let lhs = assoc_map(u);
    let rhs = assoc_map(s).insert(k, v);
    assert forall|key: K| lhs.contains_key(key) <==> rhs.contains_key(key) by {
        lemma_assoc_contains(u, key);
        lemma_assoc_contains(s, key);
        if has_key(u, key) {
            let a = choose|a: int| 0 <= a < u.len() && (#[trigger] u[a]).0 == key;
            assert(s[a].0 == key);
        }
        if has_key(s, key) {
            let a = choose|a: int| 0 <= a < s.len() && (#[trigger] s[a]).0 == key;
            assert(u[a].0 == key);
        }
        assert(u[i].0 == k);
    }
    assert forall|key: K| lhs.contains_key(key) implies lhs[key] == rhs[key] by {
        lemma_assoc_contains(u, key);
        let a = choose|a: int| 0 <= a < u.len() && (#[trigger] u[a]).0 == key;
        lemma_assoc_index(u, a);
        if a != i {
            assert(s[a] == u[a]);
            lemma_assoc_index(s, a);
            assert(s[a].0 != s[i].0);
        }
    }
    assert(lhs =~= rhs);
}

/// Moving the last pair into position `i` and dropping the last position
/// removes the key that stood at `i`.
pub proof fn lemma_assoc_swap_remove<K, V>(s: Seq<(K, V)>, i: int)
    requires
        distinct_keys(s),
        0 <= i < s.len(),
    ensures
        distinct_keys(s.update(i, s.last()).drop_last()),
        assoc_map(s.update(i, s.last()).drop_last()) == assoc_map(s).remove(s[i].0),
{
    let k = s[i].0;
    let n = s.len() - 1;
    let t = s.update(i, s.last()).drop_last();
    assert forall|a: int| 0 <= a < t.len() implies #[trigger] t[a] == (if a == i {
        s[n]
    } else {
        s[a]
    }) by {}
    assert forall|a: int, b: int| 0 <= a < b < t.len() implies (#[trigger] t[a]).0 != (
    #[trigger] t[b]).0 by {
        let fa = if a == i { n } else { a };
        let fb = if b == i { n } else { b };
        assert(t[a] == s[fa]);
        assert(t[b] == s[fb]);
        if fa < fb {
            assert(s[fa].0 != s[fb].0);
        } else {
            assert(s[fb].0 != s[fa].0);
        }
    }
    let lhs = assoc_map(t);
    let rhs = assoc_map(s).remove(k);
    assert forall|key: K| lhs.contains_key(key) <==> rhs.contains_key(key) by {
        lemma_assoc_contains(t, key);
        lemma_assoc_contains(s, key);
        if has_key(t, key) {
            let a = choose|a: int| 0 <= a < t.len() && (#[trigger] t[a]).0 == key;
            let fa = if a == i { n } else { a };
            assert(t[a] == s[fa]);
            assert(s[fa].0 == key);
            if fa < i {
                assert(s[fa].0 != s[i].0);
            } else if i < fa {
                assert(s[i].0 != s[fa].0);
            }
        }
        if has_key(s, key) && key != k {
            let a = choose|a: int| 0 <= a < s.len() && (#[trigger] s[a]).0 == key;
            if a == n {
                assert(t[i].0 == key);
            } else {
                assert(t[a].0 == key);
            }
        }
    }
    assert forall|key: K| lhs.contains_key(key) implies lhs[key] == rhs[key] by {
        lemma_assoc_contains(t, key);
        let a = choose|a: int| 0 <= a < t.len() && (#[trigger] t[a]).0 == key;
        let fa = if a == i { n } else { a };
        assert(t[a] == s[fa]);
        lemma_assoc_index(t, a);
        lemma_assoc_index(s, fa);
    }
    assert(lhs =~= rhs);
}

/// Where every pair with the key `k` carries the value `v`, and there is one,
/// the map holds `v` under `k`.
pub proof fn lemma_assoc_agreed_value<K, V>(s: Seq<(K, V)>, k: K, v: V)
    requires
        has_key(s, k),
        forall|i: int| 0 <= i < s.len() && (#[trigger] s[i]).0 == k ==> s[i].1 == v,
    ensures
        assoc_map(s).contains_key(k),
        assoc_map(s)[k] == v,
    decreases s.len(),
{
    let n = s.len() - 1;
    if s[n].0 != k {
        let t = s.drop_last();
        let i = choose|i: int| 0 <= i < s.len() && (#[trigger] s[i]).0 == k;
        assert(t[i] == s[i]);
        assert forall|j: int| 0 <= j < t.len() && (#[trigger] t[j]).0 == k implies t[j].1 == v by {
            assert(t[j] == s[j]);
        }
        lemma_assoc_agreed_value(t, k, v);
    }
}

} // verus!
