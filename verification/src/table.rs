//! Lists whose entries carry a key, seen as maps from key to entry.

use vstd::prelude::*;

verus! {

/// No two entries of `s` have the same key.
pub open spec fn keyed<K, V>(s: Seq<V>, key: spec_fn(V) -> K) -> bool {
    forall|i: int, j: int|
        0 <= i < s.len() && 0 <= j < s.len() && i != j ==> key(#[trigger] s[i]) != key(
            #[trigger] s[j],
        )
}

/// Some entry of `s` has the key `k`.
pub open spec fn has_key<K, V>(s: Seq<V>, key: spec_fn(V) -> K, k: K) -> bool {
    exists|i: int| 0 <= i < s.len() && key(#[trigger] s[i]) == k
}

/// An entry of `s` that has the key `k`.
pub open spec fn entry<K, V>(s: Seq<V>, key: spec_fn(V) -> K, k: K) -> V {
    s[choose|i: int| 0 <= i < s.len() && key(#[trigger] s[i]) == k]
}

/// The map from the keys of `s` to its entries.
pub open spec fn table<K, V>(s: Seq<V>, key: spec_fn(V) -> K) -> Map<K, V> {
    Map::new(|k: K| has_key(s, key, k), |k: K| entry(s, key, k))
}

/// The map holds the entry at each position under that entry's key.
pub proof fn lemma_lookup<K, V>(s: Seq<V>, key: spec_fn(V) -> K, i: int)
    requires
        keyed(s, key),
        0 <= i < s.len(),
    ensures
        table(s, key).contains_key(key(s[i])),
        table(s, key)[key(s[i])] == s[i],
{
    assert(has_key(s, key, key(s[i])));
}

/// An entry with a new key can be appended.
pub proof fn lemma_push<K, V>(s: Seq<V>, key: spec_fn(V) -> K, v: V)
    requires
        keyed(s, key),
        !table(s, key).contains_key(key(v)),
    ensures
        keyed(s.push(v), key),
        table(s.push(v), key) == table(s, key).insert(key(v), v),
{
    let t = s.push(v);
    assert forall|i: int| 0 <= i < s.len() implies key(#[trigger] s[i]) != key(v) by {
        lemma_lookup(s, key, i);
    }
    assert(keyed(t, key));
    assert forall|k: K| table(t, key).contains_key(k) == table(s, key).insert(
        key(v),
        v,
    ).contains_key(k) by {
        if has_key(s, key, k) {
            let i = choose|i: int| 0 <= i < s.len() && key(#[trigger] s[i]) == k;
            assert(key(t[i]) == k);
        }
        if k == key(v) {
            assert(key(t[s.len() as int]) == k);
        }
        if has_key(t, key, k) && k != key(v) {
            let i = choose|i: int| 0 <= i < t.len() && key(#[trigger] t[i]) == k;
            assert(s[i] == t[i]);
        }
    }
    assert forall|k: K| table(t, key).contains_key(k) implies table(t, key)[k] == table(
        s,
        key,
    ).insert(key(v), v)[k] by {
        if k == key(v) {
            lemma_lookup(t, key, s.len() as int);
            assert(t[s.len() as int] == v);
        } else {
            let i = choose|i: int| 0 <= i < t.len() && key(#[trigger] t[i]) == k;
            assert(s[i] == t[i]);
            lemma_lookup(t, key, i);
            lemma_lookup(s, key, i);
        }
    }
    assert(table(t, key) =~= table(s, key).insert(key(v), v));
}

/// An entry can be replaced by one with the same key.
pub proof fn lemma_update<K, V>(s: Seq<V>, key: spec_fn(V) -> K, i: int, v: V)
    requires
        keyed(s, key),
        0 <= i < s.len(),
        key(s[i]) == key(v),
    ensures
        keyed(s.update(i, v), key),
        table(s.update(i, v), key) == table(s, key).insert(key(v), v),
{
    let t = s.update(i, v);
    assert forall|a: int, b: int| 0 <= a < t.len() && 0 <= b < t.len() && a != b implies key(
        #[trigger] t[a],
    ) != key(#[trigger] t[b]) by {
        assert(key(t[a]) == key(s[a]));
        assert(key(t[b]) == key(s[b]));
    }
    assert forall|k: K| table(t, key).contains_key(k) == table(s, key).insert(
        key(v),
        v,
    ).contains_key(k) by {
        if has_key(s, key, k) {
            let j = choose|j: int| 0 <= j < s.len() && key(#[trigger] s[j]) == k;
            assert(key(t[j]) == k);
        }
        if has_key(t, key, k) {
            let j = choose|j: int| 0 <= j < t.len() && key(#[trigger] t[j]) == k;
            assert(key(s[j]) == k);
        }
        if k == key(v) {
            assert(key(t[i]) == k);
        }
    }
    assert forall|k: K| table(t, key).contains_key(k) implies table(t, key)[k] == table(
        s,
        key,
    ).insert(key(v), v)[k] by {
        let j = choose|j: int| 0 <= j < t.len() && key(#[trigger] t[j]) == k;
        lemma_lookup(t, key, j);
        lemma_lookup(s, key, j);
        lemma_lookup(t, key, i);
        if j != i {
            assert(key(t[j]) != key(t[i]));
        }
    }
    assert(table(t, key) =~= table(s, key).insert(key(v), v));
}

/// An entry can be taken out.
pub proof fn lemma_remove<K, V>(s: Seq<V>, key: spec_fn(V) -> K, i: int)
    requires
        keyed(s, key),
        0 <= i < s.len(),
    ensures
        keyed(s.remove(i), key),
        table(s.remove(i), key) == table(s, key).remove(key(s[i])),
{
    let t = s.remove(i);
    assert forall|a: int, b: int| 0 <= a < t.len() && 0 <= b < t.len() && a != b implies key(
        #[trigger] t[a],
    ) != key(#[trigger] t[b]) by {
        let a0 = if a < i { a } else { a + 1 };
        let b0 = if b < i { b } else { b + 1 };
        assert(t[a] == s[a0]);
        assert(t[b] == s[b0]);
    }
    let gone = key(s[i]);
    assert forall|k: K| table(t, key).contains_key(k) == table(s, key).remove(gone).contains_key(
        k,
    ) by {
        if has_key(t, key, k) {
            let a = choose|a: int| 0 <= a < t.len() && key(#[trigger] t[a]) == k;
            let a0 = if a < i { a } else { a + 1 };
            assert(t[a] == s[a0]);
            assert(key(s[a0]) != gone);
        }
        if has_key(s, key, k) && k != gone {
            let a = choose|a: int| 0 <= a < s.len() && key(#[trigger] s[a]) == k;
            let a1 = if a < i { a } else { a - 1 };
            assert(t[a1] == s[a]);
        }
    }
    assert forall|k: K| table(t, key).contains_key(k) implies table(t, key)[k] == table(
        s,
        key,
    ).remove(gone)[k] by {
        let a = choose|a: int| 0 <= a < t.len() && key(#[trigger] t[a]) == k;
        let a0 = if a < i { a } else { a + 1 };
        assert(t[a] == s[a0]);
        lemma_lookup(t, key, a);
        lemma_lookup(s, key, a0);
    }
    assert(table(t, key) =~= table(s, key).remove(gone));
}

/// The entries can be changed in place as long as the keys stay.
pub proof fn lemma_map<K, V>(s: Seq<V>, key: spec_fn(V) -> K, f: spec_fn(V) -> V)
    requires
        keyed(s, key),
        forall|v: V| key(#[trigger] f(v)) == key(v),
    ensures
        keyed(s.map_values(f), key),
        table(s.map_values(f), key) == table(s, key).map_values(f),
{
    let t = s.map_values(f);
    assert forall|a: int, b: int| 0 <= a < t.len() && 0 <= b < t.len() && a != b implies key(
        #[trigger] t[a],
    ) != key(#[trigger] t[b]) by {
        assert(t[a] == f(s[a]) && t[b] == f(s[b]));
    }
    assert forall|k: K| has_key(t, key, k) == has_key(s, key, k) by {
        if has_key(t, key, k) {
            let a = choose|a: int| 0 <= a < t.len() && key(#[trigger] t[a]) == k;
            assert(t[a] == f(s[a]));
            assert(key(s[a]) == k);
        }
        if has_key(s, key, k) {
            let a = choose|a: int| 0 <= a < s.len() && key(#[trigger] s[a]) == k;
            assert(t[a] == f(s[a]));
            assert(key(t[a]) == k);
        }
    }
    assert forall|k: K| table(t, key).contains_key(k) implies table(t, key)[k] == table(
        s,
        key,
    ).map_values(f)[k] by {
        let a = choose|a: int| 0 <= a < t.len() && key(#[trigger] t[a]) == k;
        assert(t[a] == f(s[a]));
        lemma_lookup(t, key, a);
        lemma_lookup(s, key, a);
    }
    assert(table(t, key) =~= table(s, key).map_values(f));
}

} // verus!
