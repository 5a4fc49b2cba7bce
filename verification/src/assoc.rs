//! Sequences of key and value pairs, read as maps.
//!
//! The ledger of versions, the entries of an index and the fields of an error
//! payload are all kept as sequences of pairs in which no key occurs twice.

use vstd::prelude::*;

verus! {

/// The pair at position `i` has the key `k`.
pub open spec fn key_at<K, V>(s: Seq<(K, V)>, k: K, i: int) -> bool {
    0 <= i < s.len() && s[i].0 == k
}

/// Some pair has the key `k`.
pub open spec fn has_key<K, V>(s: Seq<(K, V)>, k: K) -> bool {
    exists|i: int| key_at(s, k, i)
}

/// A position at which the key `k` stands, if it stands anywhere.
pub open spec fn position_of<K, V>(s: Seq<(K, V)>, k: K) -> int {
    choose|i: int| key_at(s, k, i)
}

/// The value that stands with the key `k`.
pub open spec fn value_of<K, V>(s: Seq<(K, V)>, k: K) -> V {
    s[position_of(s, k)].1
}

/// No key occurs twice.
pub open spec fn distinct_keys<K, V>(s: Seq<(K, V)>) -> bool {
    forall|i: int, j: int| 0 <= i < j < s.len() ==> s[i].0 != s[j].0
}

/// The map from each key to the value that stands with it.
pub open spec fn as_map<K, V>(s: Seq<(K, V)>) -> Map<K, V> {
    Map::new(|k: K| has_key(s, k), |k: K| value_of(s, k))
}

/// What `s` becomes when the value `v` is put under the key `k`: the pair
/// replaces the one with that key, or is added at the end.
pub open spec fn put<K, V>(s: Seq<(K, V)>, k: K, v: V) -> Seq<(K, V)> {
    if has_key(s, k) {
        s.update(position_of(s, k), (k, v))
    } else {
        s.push((k, v))
    }
}

/// What `s` becomes when the pair with the key `k` is taken out.
pub open spec fn without<K, V>(s: Seq<(K, V)>, k: K) -> Seq<(K, V)> {
    if has_key(s, k) {
        s.remove(position_of(s, k))
    } else {
        s
    }
}

/// Where keys are distinct, a key stands at one position only.
pub proof fn lemma_position_unique<K, V>(s: Seq<(K, V)>, k: K, i: int)
    requires
        distinct_keys(s),
        key_at(s, k, i),
    ensures
        has_key(s, k),
        position_of(s, k) == i,
        value_of(s, k) == s[i].1,
{
    let p = position_of(s, k);
    assert(key_at(s, k, p));
    if p < i {
        assert(s[p].0 != s[i].0);
    } else if i < p {
        assert(s[i].0 != s[p].0);
    }
}

/// Putting a value under a key keeps the keys distinct and changes the map
/// at that key only.
pub proof fn lemma_put<K, V>(s: Seq<(K, V)>, k: K, v: V)
    requires
        distinct_keys(s),
    ensures
        distinct_keys(put(s, k, v)),
        as_map(put(s, k, v)) == as_map(s).insert(k, v),
        has_key(put(s, k, v), k),
        value_of(put(s, k, v), k) == v,
{
    let t = put(s, k, v);
    let at = if has_key(s, k) {
        position_of(s, k)
    } else {
        s.len() as int
    };
    if has_key(s, k) {
        assert(key_at(s, k, at));
    }
    assert(key_at(t, k, at));
    assert forall|i: int, j: int| 0 <= i < j < t.len() implies t[i].0 != t[j].0 by {
        if has_key(s, k) {
            if i == at {
                assert(s[i].0 != s[j].0);
            } else if j == at {
                assert(s[i].0 != s[j].0);
            } else {
                assert(s[i].0 != s[j].0);
            }
        } else {
            if j == s.len() {
                if s[i].0 == k {
                    assert(key_at(s, k, i));
                }
            } else {
                assert(s[i].0 != s[j].0);
            }
        }
    }
    lemma_position_unique(t, k, at);
    assert forall|q: K| has_key(t, q) == (q == k || has_key(s, q)) by {
        if has_key(t, q) {
            let i = position_of(t, q);
            assert(key_at(t, q, i));
            if q != k {
                assert(key_at(s, q, i));
            }
        }
        if has_key(s, q) {
            let i = position_of(s, q);
            assert(key_at(s, q, i));
            if q != k {
                assert(key_at(t, q, i));
            }
        }
    }
    assert forall|q: K| q != k && has_key(s, q) implies value_of(t, q) == value_of(s, q) by {
        let i = position_of(s, q);
        assert(key_at(s, q, i));
        assert(key_at(t, q, i));
        lemma_position_unique(t, q, i);
    }
    assert(as_map(t) =~= as_map(s).insert(k, v));
}

/// Taking a key out keeps the keys distinct and removes that key from the map.
pub proof fn lemma_without<K, V>(s: Seq<(K, V)>, k: K)
    requires
        distinct_keys(s),
    ensures
        distinct_keys(without(s, k)),
        as_map(without(s, k)) == as_map(s).remove(k),
        !has_key(without(s, k), k),
{
    let t = without(s, k);
    if has_key(s, k) {
        let at = position_of(s, k);
        assert(key_at(s, k, at));
        assert forall|i: int, j: int| 0 <= i < j < t.len() implies t[i].0 != t[j].0 by {
            let si = if i < at { i } else { i + 1 };
            let sj = if j < at { j } else { j + 1 };
            assert(s[si].0 != s[sj].0);
        }
        assert forall|q: K| has_key(t, q) == (q != k && has_key(s, q)) by {
            if has_key(t, q) {
                let i = position_of(t, q);
                assert(key_at(t, q, i));
                let si = if i < at { i } else { i + 1 };
                assert(key_at(s, q, si));
                if q == k {
                    lemma_position_unique(s, k, si);
                }
            }
            if q != k && has_key(s, q) {
                let i = position_of(s, q);
                assert(key_at(s, q, i));
                let ti = if i < at { i } else { i - 1 };
                assert(key_at(t, q, ti));
            }
        }
        assert forall|q: K| q != k && has_key(s, q) implies value_of(t, q) == value_of(s, q) by {
            let i = position_of(s, q);
            assert(key_at(s, q, i));
            let ti = if i < at { i } else { i - 1 };
            assert(key_at(t, q, ti));
            lemma_position_unique(t, q, ti);
        }
        assert(as_map(t) =~= as_map(s).remove(k));
    } else {
        assert(as_map(t) =~= as_map(s).remove(k));
    }
}

/// Putting a new key in at any position keeps the keys distinct and adds
/// that key to the map.
pub proof fn lemma_insert_at<K, V>(s: Seq<(K, V)>, at: int, k: K, v: V)
    requires
        distinct_keys(s),
        !has_key(s, k),
        0 <= at <= s.len(),
    ensures
        distinct_keys(s.insert(at, (k, v))),
        as_map(s.insert(at, (k, v))) == as_map(s).insert(k, v),
        has_key(s.insert(at, (k, v)), k),
        value_of(s.insert(at, (k, v)), k) == v,
{
    let t = s.insert(at, (k, v));
    assert(key_at(t, k, at));
    assert forall|i: int, j: int| 0 <= i < j < t.len() implies t[i].0 != t[j].0 by {
        let si = if i < at { i } else { i - 1 };
        let sj = if j < at { j } else { j - 1 };
        if i == at {
            if t[j].0 == k {
                assert(key_at(s, k, sj));
            }
        } else if j == at {
            if t[i].0 == k {
                assert(key_at(s, k, si));
            }
        } else {
            assert(s[si].0 != s[sj].0);
        }
    }
    lemma_position_unique(t, k, at);
    assert forall|q: K| has_key(t, q) == (q == k || has_key(s, q)) by {
        if has_key(t, q) {
            let i = position_of(t, q);
            assert(key_at(t, q, i));
            if q != k {
                let si = if i < at { i } else { i - 1 };
                assert(key_at(s, q, si));
            }
        }
        if has_key(s, q) {
            let i = position_of(s, q);
            assert(key_at(s, q, i));
            let ti = if i < at { i } else { i + 1 };
            assert(key_at(t, q, ti));
        }
    }
    assert forall|q: K| q != k && has_key(s, q) implies value_of(t, q) == value_of(s, q) by {
        let i = position_of(s, q);
        assert(key_at(s, q, i));
        let ti = if i < at { i } else { i + 1 };
        assert(key_at(t, q, ti));
        lemma_position_unique(t, q, ti);
    }
    assert(as_map(t) =~= as_map(s).insert(k, v));
}

/// The empty sequence is the empty map.
pub proof fn lemma_empty<K, V>()
    ensures
        distinct_keys(Seq::<(K, V)>::empty()),
        as_map(Seq::<(K, V)>::empty()) == Map::<K, V>::empty(),
        forall|k: K| !has_key(Seq::<(K, V)>::empty(), k),
{
    let e = Seq::<(K, V)>::empty();
    assert forall|k: K| !has_key(e, k) by {
        if has_key(e, k) {
            assert(key_at(e, k, position_of(e, k)));
        }
    }
    assert(as_map(e) =~= Map::<K, V>::empty());
}

} // verus!
