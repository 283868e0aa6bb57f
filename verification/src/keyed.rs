//! Sequences of uniquely keyed pairs, read as finite maps.

use vstd::prelude::*;

verus! {

/// No two pairs of `s` have the same key.
pub open spec fn keys_distinct<V>(s: Seq<(Seq<char>, V)>) -> bool {
    forall|i: int, j: int| 0 <= i < s.len() && 0 <= j < s.len() && i != j ==> s[i].0 != s[j].0
}

/// Some pair of `s` has key `k`.
pub open spec fn has_key<V>(s: Seq<(Seq<char>, V)>, k: Seq<char>) -> bool {
    exists|i: int| 0 <= i < s.len() && s[i].0 == k
}

/// The map from each key of `s` to the value paired with it.
pub open spec fn keyed_map<V>(s: Seq<(Seq<char>, V)>) -> Map<Seq<char>, V> {
    Map::new(
        |k: Seq<char>| has_key(s, k),
        |k: Seq<char>| s[choose|i: int| 0 <= i < s.len() && s[i].0 == k].1,
    )
}

/// Each pair of a sequence with distinct keys is found in its map.
pub proof fn lemma_keyed_index<V>(s: Seq<(Seq<char>, V)>, i: int)
    requires
        keys_distinct(s),
        0 <= i < s.len(),
    ensures
        keyed_map(s).contains_key(s[i].0),
        keyed_map(s)[s[i].0] == s[i].1,
{
    let k = s[i].0;
    assert(has_key(s, k));
    let j = choose|j: int| 0 <= j < s.len() && s[j].0 == k;
    assert(j == i);
}

/// A key that no pair carries is not in the map.
pub proof fn lemma_keyed_absent<V>(s: Seq<(Seq<char>, V)>, k: Seq<char>)
    requires
        forall|i: int| 0 <= i < s.len() ==> s[i].0 != k,
    ensures
        !keyed_map(s).contains_key(k),
{
}

/// Two sequences with distinct keys and the same pairs at the same keys give the same map.
pub proof fn lemma_keyed_ext<V>(s: Seq<(Seq<char>, V)>, m: Map<Seq<char>, V>)
    requires
        keys_distinct(s),
        forall|k: Seq<char>| m.contains_key(k) <==> has_key(s, k),
        forall|i: int| 0 <= i < s.len() ==> m[#[trigger] s[i].0] == s[i].1,
    ensures
        keyed_map(s) == m,
{
    assert forall|k: Seq<char>| keyed_map(s).contains_key(k) implies keyed_map(s)[k] == m[k] by {
        let i = choose|i: int| 0 <= i < s.len() && s[i].0 == k;
        lemma_keyed_index(s, i);
    }
    assert(keyed_map(s) =~= m);
}

/// Replacing the value at position `i` replaces the value of its key.
pub proof fn lemma_keyed_update<V>(s: Seq<(Seq<char>, V)>, i: int, v: V)
    requires
        keys_distinct(s),
        0 <= i < s.len(),
    ensures
        keys_distinct(s.update(i, (s[i].0, v))),
        keyed_map(s.update(i, (s[i].0, v))) == keyed_map(s).insert(s[i].0, v),
{
    let t = s.update(i, (s[i].0, v));
    let m = keyed_map(s).insert(s[i].0, v);
    assert forall|k: Seq<char>| m.contains_key(k) <==> has_key(t, k) by {
        if has_key(s, k) {
            let j = choose|j: int| 0 <= j < s.len() && s[j].0 == k;
            assert(t[j].0 == k);
        }
        if has_key(t, k) {
            let j = choose|j: int| 0 <= j < t.len() && t[j].0 == k;
            assert(s[j].0 == k);
        }
    }
    assert forall|j: int| 0 <= j < t.len() implies m[#[trigger] t[j].0] == t[j].1 by {
        if j != i {
            lemma_keyed_index(s, j);
        }
    }
    lemma_keyed_ext(t, m);
}

/// Appending a pair with a new key adds that key.
pub proof fn lemma_keyed_push<V>(s: Seq<(Seq<char>, V)>, k: Seq<char>, v: V)
    requires
        keys_distinct(s),
        !has_key(s, k),
    ensures
        keys_distinct(s.push((k, v))),
        keyed_map(s.push((k, v))) == keyed_map(s).insert(k, v),
{
    let t = s.push((k, v));
    let m = keyed_map(s).insert(k, v);
    assert forall|k2: Seq<char>| m.contains_key(k2) <==> has_key(t, k2) by {
        if has_key(s, k2) {
            let j = choose|j: int| 0 <= j < s.len() && s[j].0 == k2;
            assert(t[j].0 == k2);
        }
        if k2 == k {
            assert(t[s.len() as int].0 == k2);
        }
        if has_key(t, k2) && k2 != k {
            let j = choose|j: int| 0 <= j < t.len() && t[j].0 == k2;
            assert(s[j].0 == k2);
        }
    }
    assert forall|j: int| 0 <= j < t.len() implies m[#[trigger] t[j].0] == t[j].1 by {
        if j < s.len() {
            lemma_keyed_index(s, j);
        }
    }
    lemma_keyed_ext(t, m);
}

/// Removing the pair at position `i` removes its key.
pub proof fn lemma_keyed_remove<V>(s: Seq<(Seq<char>, V)>, i: int)
    requires
        keys_distinct(s),
        0 <= i < s.len(),
    ensures
        keys_distinct(s.remove(i)),
        keyed_map(s.remove(i)) == keyed_map(s).remove(s[i].0),
{
    let t = s.remove(i);
    let m = keyed_map(s).remove(s[i].0);
    assert forall|a: int, b: int| 0 <= a < t.len() && 0 <= b < t.len() && a != b implies t[a].0 != t[b].0 by {
        let a2 = if a < i { a } else { a + 1 };
        let b2 = if b < i { b } else { b + 1 };
        assert(t[a] == s[a2] && t[b] == s[b2]);
    }
    assert forall|k: Seq<char>| m.contains_key(k) <==> has_key(t, k) by {
        if has_key(s, k) && k != s[i].0 {
            let j = choose|j: int| 0 <= j < s.len() && s[j].0 == k;
            if j < i {
                assert(t[j].0 == k);
            } else {
                assert(t[j - 1].0 == k);
            }
        }
        if has_key(t, k) {
            let j = choose|j: int| 0 <= j < t.len() && t[j].0 == k;
            let j2 = if j < i { j } else { j + 1 };
            assert(s[j2].0 == k);
        }
    }
    assert forall|j: int| 0 <= j < t.len() implies m[#[trigger] t[j].0] == t[j].1 by {
        let j2 = if j < i { j } else { j + 1 };
        assert(t[j] == s[j2]);
        lemma_keyed_index(s, j2);
    }
    lemma_keyed_ext(t, m);
}

/// The empty sequence gives the empty map.
pub proof fn lemma_keyed_empty<V>(s: Seq<(Seq<char>, V)>)
    requires
        s.len() == 0,
    ensures
        keys_distinct(s),
        keyed_map(s) == Map::<Seq<char>, V>::empty(),
{
    assert(keyed_map(s) =~= Map::<Seq<char>, V>::empty());
}

} // verus!
