//! Records held in a vector, found by a text key that no two of them share.
//! The model of such a vector is the map from each key to its record.

use vstd::prelude::*;

verus! {

/// Whether no key occurs twice.
pub open spec fn distinct(keys: Seq<Seq<char>>) -> bool {
    forall|i: int, j: int| 0 <= i < j < keys.len() ==> keys[i] != keys[j]
}

/// Whether `k` is one of the keys.
pub open spec fn has_key(keys: Seq<Seq<char>>, k: Seq<char>) -> bool {
    exists|i: int| 0 <= i < keys.len() && keys[i] == k
}

/// A place at which `k` stands among the keys, if it is one of them.
pub open spec fn key_index(keys: Seq<Seq<char>>, k: Seq<char>) -> int {
    choose|i: int| 0 <= i < keys.len() && keys[i] == k
}

/// The map that takes each key to the value at the key's place.
pub open spec fn keyed<V>(keys: Seq<Seq<char>>, vals: Seq<V>) -> Map<Seq<char>, V> {
    Map::new(|k: Seq<char>| has_key(keys, k), |k: Seq<char>| vals[key_index(keys, k)])
}

/// The keys without `k`.
pub open spec fn without_key(keys: Seq<Seq<char>>, k: Seq<char>) -> Seq<Seq<char>> {
    if has_key(keys, k) {
        keys.remove(key_index(keys, k))
    } else {
        keys
    }
}

/// Among distinct keys, the key at place `i` is found at place `i`.
pub proof fn lemma_key_at<V>(keys: Seq<Seq<char>>, vals: Seq<V>, i: int)
    requires
        distinct(keys),
        0 <= i < keys.len(),
    ensures
        has_key(keys, keys[i]),
        key_index(keys, keys[i]) == i,
        keyed(keys, vals).contains_key(keys[i]),
        keyed(keys, vals)[keys[i]] == vals[i],
{
    let j = key_index(keys, keys[i]);
    assert(0 <= j < keys.len() && keys[j] == keys[i]);
    if j < i {
        assert(keys[j] != keys[i]);
    }
    if i < j {
        assert(keys[i] != keys[j]);
    }
}

/// A new key at the end adds one entry to the map.
pub proof fn lemma_keyed_push<V>(keys: Seq<Seq<char>>, vals: Seq<V>, k: Seq<char>, v: V)
    requires
        distinct(keys),
        keys.len() == vals.len(),
        !has_key(keys, k),
    ensures
        distinct(keys.push(k)),
        keyed(keys.push(k), vals.push(v)) == keyed(keys, vals).insert(k, v),
{
    let keys2 = keys.push(k);
    let vals2 = vals.push(v);
    assert(distinct(keys2)) by {
        assert forall|i: int, j: int| 0 <= i < j < keys2.len() implies keys2[i] != keys2[j] by {
            if j == keys.len() {
                assert(keys[i] == keys2[i]);
            } else {
                assert(keys[i] != keys[j]);
            }
        }
    }
    let m1 = keyed(keys2, vals2);
    let m2 = keyed(keys, vals).insert(k, v);
    assert forall|t: Seq<char>| m1.contains_key(t) <==> m2.contains_key(t) by {
        if has_key(keys2, t) {
            let i = key_index(keys2, t);
            if i < keys.len() {
                assert(keys[i] == t);
            }
        }
        if has_key(keys, t) {
            let i = key_index(keys, t);
            assert(keys2[i] == t);
        }
        if t == k {
            assert(keys2[keys.len() as int] == k);
        }
    }
    assert forall|t: Seq<char>| m1.contains_key(t) implies m1[t] == m2[t] by {
        let i = key_index(keys2, t);
        lemma_key_at(keys2, vals2, i);
        if i < keys.len() {
            assert(keys[i] == t);
            lemma_key_at(keys, vals, i);
        }
    }
    assert(m1 =~= m2);
}

/// A new value at the place of a key replaces the key's entry in the map.
pub proof fn lemma_keyed_update<V>(keys: Seq<Seq<char>>, vals: Seq<V>, i: int, v: V)
    requires
        distinct(keys),
        keys.len() == vals.len(),
        0 <= i < keys.len(),
    ensures
        keyed(keys, vals.update(i, v)) == keyed(keys, vals).insert(keys[i], v),
{
    let vals2 = vals.update(i, v);
    let m1 = keyed(keys, vals2);
    let m2 = keyed(keys, vals).insert(keys[i], v);
    lemma_key_at(keys, vals, i);
    assert forall|t: Seq<char>| m1.contains_key(t) implies m1[t] == m2[t] by {
        let j = key_index(keys, t);
        lemma_key_at(keys, vals, j);
        lemma_key_at(keys, vals2, j);
    }
    assert(m1 =~= m2);
}

/// Taking out the place of a key takes the key's entry out of the map.
pub proof fn lemma_keyed_remove<V>(keys: Seq<Seq<char>>, vals: Seq<V>, i: int)
    requires
        distinct(keys),
        keys.len() == vals.len(),
        0 <= i < keys.len(),
    ensures
        distinct(keys.remove(i)),
        keys.remove(i) == without_key(keys, keys[i]),
        !has_key(keys.remove(i), keys[i]),
        keyed(keys.remove(i), vals.remove(i)) == keyed(keys, vals).remove(keys[i]),
{
    let keys2 = keys.remove(i);
    let vals2 = vals.remove(i);
    lemma_key_at(keys, vals, i);
    assert(distinct(keys2)) by {
        assert forall|a: int, b: int| 0 <= a < b < keys2.len() implies keys2[a] != keys2[b] by {
            let a1 = if a < i { a } else { a + 1 };
            let b1 = if b < i { b } else { b + 1 };
            assert(keys2[a] == keys[a1] && keys2[b] == keys[b1]);
            assert(keys[a1] != keys[b1]);
        }
    }
    assert(!has_key(keys2, keys[i])) by {
        if has_key(keys2, keys[i]) {
            let a = key_index(keys2, keys[i]);
            let a1 = if a < i { a } else { a + 1 };
            assert(keys2[a] == keys[a1]);
            if a1 < i {
                assert(keys[a1] != keys[i]);
            } else {
                assert(keys[i] != keys[a1]);
            }
        }
    }
    let m1 = keyed(keys2, vals2);
    let m2 = keyed(keys, vals).remove(keys[i]);
    assert forall|t: Seq<char>| m1.contains_key(t) <==> m2.contains_key(t) by {
        if has_key(keys2, t) {
            let a = key_index(keys2, t);
            let a1 = if a < i { a } else { a + 1 };
            assert(keys[a1] == keys2[a]);
        }
        if has_key(keys, t) && t != keys[i] {
            let b = key_index(keys, t);
            let b2 = if b < i { b } else { b - 1 };
            assert(keys2[b2] == keys[b]);
        }
    }
    assert forall|t: Seq<char>| m1.contains_key(t) implies m1[t] == m2[t] by {
        let a = key_index(keys2, t);
        let a1 = if a < i { a } else { a + 1 };
        assert(keys2[a] == keys[a1]);
        assert(vals2[a] == vals[a1]);
        lemma_key_at(keys2, vals2, a);
        lemma_key_at(keys, vals, a1);
    }
    assert(m1 =~= m2);
}

/// A key that is not there leaves the keys as they are when it is taken out,
/// and the map has no entry for it.
pub proof fn lemma_keyed_absent<V>(keys: Seq<Seq<char>>, vals: Seq<V>, k: Seq<char>)
    requires
        !has_key(keys, k),
    ensures
        without_key(keys, k) == keys,
        keyed(keys, vals).remove(k) == keyed(keys, vals),
{
    assert(keyed(keys, vals).remove(k) =~= keyed(keys, vals));
}

} // verus!
