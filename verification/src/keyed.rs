//! Sequences of entries in which no two entries share a key, read as maps
//! from each key to its entry.

use vstd::prelude::*;

verus! {

/// No two entries of `s` have the same key.
pub open spec fn keys_unique<E, K>(s: Seq<E>, key: spec_fn(E) -> K) -> bool {
    forall|i: int, j: int| 0 <= i < s.len() && 0 <= j < s.len() && i != j
        ==> key(#[trigger] s[i]) != key(#[trigger] s[j])
}

/// The map from each key in `s` to the last entry of `s` with that key.
pub open spec fn to_map<E, K>(s: Seq<E>, key: spec_fn(E) -> K) -> Map<K, E>
    decreases s.len(),
{
    if s.len() == 0 {
        Map::empty()
    } else {
        to_map(s.drop_last(), key).insert(key(s.last()), s.last())
    }
}

/// Some entry of `s` has key `k`.
pub open spec fn has_key<E, K>(s: Seq<E>, key: spec_fn(E) -> K, k: K) -> bool {
    exists|i: int| 0 <= i < s.len() && key(#[trigger] s[i]) == k
}

/// A key is in the map exactly where some entry has it.
pub proof fn lemma_to_map_dom<E, K>(s: Seq<E>, key: spec_fn(E) -> K, k: K)
    ensures
        to_map(s, key).dom().contains(k) <==> has_key(s, key, k),
    decreases s.len(),
{
    if s.len() > 0 {
        lemma_to_map_dom(s.drop_last(), key, k);
        if has_key(s, key, k) && key(s.last()) != k {
            let i = choose|i: int| 0 <= i < s.len() && key(#[trigger] s[i]) == k;
            assert(s.drop_last()[i] == s[i]);
        }
        if has_key(s.drop_last(), key, k) {
            let i = choose|i: int| 0 <= i < s.drop_last().len() && key(#[trigger] s.drop_last()[i]) == k;
            assert(s[i] == s.drop_last()[i]);
        }
        assert(key(s[s.len() - 1]) == key(s.last()));
    }
}

/// Where keys are unique, each entry is what the map holds under its key.
pub proof fn lemma_to_map_val<E, K>(s: Seq<E>, key: spec_fn(E) -> K, i: int)
    requires
        keys_unique(s, key),
        0 <= i < s.len(),
    ensures
        to_map(s, key).dom().contains(key(s[i])),
        to_map(s, key)[key(s[i])] == s[i],
    decreases s.len(),
{
    if i < s.len() - 1 {
        let t = s.drop_last();
        assert(t[i] == s[i]);
        assert forall|a: int, b: int| 0 <= a < t.len() && 0 <= b < t.len() && a != b implies key(
            #[trigger] t[a],
        ) != key(#[trigger] t[b]) by {
            assert(t[a] == s[a] && t[b] == s[b]);
        }
        lemma_to_map_val(t, key, i);
        assert(key(s[i]) != key(s[s.len() - 1]));
    }
}

/// The index of the entry with key `k`, where one exists.
pub open spec fn index_of<E, K>(s: Seq<E>, key: spec_fn(E) -> K, k: K) -> int {
    choose|i: int| 0 <= i < s.len() && key(#[trigger] s[i]) == k
}

/// The index of a key's entry is in range, has the key, and holds the
/// map's entry for it.
pub proof fn lemma_index_of<E, K>(s: Seq<E>, key: spec_fn(E) -> K, k: K)
    requires
        keys_unique(s, key),
        has_key(s, key, k),
    ensures
        0 <= index_of(s, key, k) < s.len(),
        key(s[index_of(s, key, k)]) == k,
        to_map(s, key)[k] == s[index_of(s, key, k)],
{
    lemma_to_map_val(s, key, index_of(s, key, k));
}

/// Appending an entry with a new key adds it to the map.
pub proof fn lemma_push<E, K>(s: Seq<E>, key: spec_fn(E) -> K, e: E)
    requires
        keys_unique(s, key),
        !has_key(s, key, key(e)),
    ensures
        keys_unique(s.push(e), key),
        to_map(s.push(e), key) == to_map(s, key).insert(key(e), e),
{
    let t = s.push(e);
    assert(t.drop_last() =~= s);
    assert forall|a: int, b: int| 0 <= a < t.len() && 0 <= b < t.len() && a != b implies key(
        #[trigger] t[a],
    ) != key(#[trigger] t[b]) by {
        if a == s.len() {
            assert(t[b] == s[b]);
        } else if b == s.len() {
            assert(t[a] == s[a]);
        } else {
            assert(t[a] == s[a] && t[b] == s[b]);
        }
    }
}

/// Replacing the entry at `i` by one with the same key updates the map at that key.
pub proof fn lemma_update<E, K>(s: Seq<E>, key: spec_fn(E) -> K, i: int, e: E)
    requires
        keys_unique(s, key),
        0 <= i < s.len(),
        key(e) == key(s[i]),
    ensures
        keys_unique(s.update(i, e), key),
        to_map(s.update(i, e), key) == to_map(s, key).insert(key(e), e),
{
    let t = s.update(i, e);
    assert forall|a: int, b: int| 0 <= a < t.len() && 0 <= b < t.len() && a != b implies key(
        #[trigger] t[a],
    ) != key(#[trigger] t[b]) by {
        assert(key(t[a]) == key(s[a]));
        assert(key(t[b]) == key(s[b]));
    }
    let m1 = to_map(t, key);
    let m2 = to_map(s, key).insert(key(e), e);
    assert forall|k: K| m1.dom().contains(k) <==> m2.dom().contains(k) by {
        lemma_to_map_dom(t, key, k);
        lemma_to_map_dom(s, key, k);
        if has_key(s, key, k) {
            let j = choose|j: int| 0 <= j < s.len() && key(#[trigger] s[j]) == k;
            assert(key(t[j]) == k);
        }
        if has_key(t, key, k) {
            let j = choose|j: int| 0 <= j < t.len() && key(#[trigger] t[j]) == k;
            assert(key(s[j]) == k);
        }
    }
    assert forall|k: K| m1.dom().contains(k) implies m1[k] == m2[k] by {
        lemma_to_map_dom(t, key, k);
        let j = choose|j: int| 0 <= j < t.len() && key(#[trigger] t[j]) == k;
        lemma_to_map_val(t, key, j);
        if j != i {
            assert(t[j] == s[j]);
            lemma_to_map_val(s, key, j);
        }
    }
    assert(m1 =~= m2);
}

/// Removing the entry at `i` removes its key from the map.
pub proof fn lemma_remove<E, K>(s: Seq<E>, key: spec_fn(E) -> K, i: int)
    requires
        keys_unique(s, key),
        0 <= i < s.len(),
    ensures
        keys_unique(s.remove(i), key),
        to_map(s.remove(i), key) == to_map(s, key).remove(key(s[i])),
{
    let t = s.remove(i);
    assert forall|a: int, b: int| 0 <= a < t.len() && 0 <= b < t.len() && a != b implies key(
        #[trigger] t[a],
    ) != key(#[trigger] t[b]) by {
        let a2 = if a < i { a } else { a + 1 };
        let b2 = if b < i { b } else { b + 1 };
        assert(t[a] == s[a2] && t[b] == s[b2]);
    }
    let m1 = to_map(t, key);
    let m2 = to_map(s, key).remove(key(s[i]));
    assert forall|k: K| m1.dom().contains(k) <==> m2.dom().contains(k) by {
        lemma_to_map_dom(t, key, k);
        lemma_to_map_dom(s, key, k);
        if has_key(s, key, k) && k != key(s[i]) {
            let j = choose|j: int| 0 <= j < s.len() && key(#[trigger] s[j]) == k;
            let j2 = if j < i { j } else { j - 1 };
            assert(t[j2] == s[j]);
        }
        if has_key(t, key, k) {
            let j = choose|j: int| 0 <= j < t.len() && key(#[trigger] t[j]) == k;
            let j2 = if j < i { j } else { j + 1 };
            assert(t[j] == s[j2]);
        }
    }
    assert forall|k: K| m1.dom().contains(k) implies m1[k] == m2[k] by {
        lemma_to_map_dom(t, key, k);
        let j = choose|j: int| 0 <= j < t.len() && key(#[trigger] t[j]) == k;
        lemma_to_map_val(t, key, j);
        let j2 = if j < i { j } else { j + 1 };
        assert(t[j] == s[j2]);
        lemma_to_map_val(s, key, j2);
    }
    assert(m1 =~= m2);
}

} // verus!
