//! A sequence of records with unique keys, seen as a map from key to record.
use vstd::prelude::*;

verus! {

pub open spec fn unique_keys<T>(s: Seq<T>, key: spec_fn(T) -> u128) -> bool {
    forall|i: int, j: int|
        0 <= i < s.len() && 0 <= j < s.len() && key(s[i]) == key(s[j]) ==> i == j
}

pub open spec fn has_key<T>(s: Seq<T>, key: spec_fn(T) -> u128, k: u128) -> bool {
    exists|i: int| 0 <= i < s.len() && key(s[i]) == k
}

/// The records of `s` by key.
pub open spec fn keyed<T>(s: Seq<T>, key: spec_fn(T) -> u128) -> Map<u128, T> {
    Map::new(
        |k: u128| has_key(s, key, k),
        |k: u128| s[choose|i: int| 0 <= i < s.len() && key(s[i]) == k],
    )
}

pub proof fn lemma_keyed_index<T>(s: Seq<T>, key: spec_fn(T) -> u128, i: int)
    requires
        unique_keys(s, key),
        0 <= i < s.len(),
    ensures
        keyed(s, key).contains_key(key(s[i])),
        keyed(s, key)[key(s[i])] == s[i],
{
    let k = key(s[i]);
    assert(has_key(s, key, k));
    let j = choose|j: int| 0 <= j < s.len() && key(s[j]) == k;
    assert(i == j);
}

pub proof fn lemma_keyed_update<T>(s: Seq<T>, key: spec_fn(T) -> u128, i: int, x: T)
    requires
        unique_keys(s, key),
        0 <= i < s.len(),
        key(x) == key(s[i]),
    ensures
        unique_keys(s.update(i, x), key),
        keyed(s.update(i, x), key) == keyed(s, key).insert(key(x), x),
{
    let t = s.update(i, x);
    assert(unique_keys(t, key)) by {
        assert forall|a: int, b: int|
            0 <= a < t.len() && 0 <= b < t.len() && key(t[a]) == key(t[b]) implies a == b by {
            assert(key(t[a]) == key(s[a]));
            assert(key(t[b]) == key(s[b]));
        }
    }
    let m = keyed(s, key).insert(key(x), x);
    assert forall|k: u128| #[trigger] keyed(t, key).contains_key(k) <==> m.contains_key(k) by {
        if has_key(t, key, k) {
            let a = choose|a: int| 0 <= a < t.len() && key(t[a]) == k;
            assert(key(t[a]) == key(s[a]));
        }
        if has_key(s, key, k) {
            let a = choose|a: int| 0 <= a < s.len() && key(s[a]) == k;
            assert(key(t[a]) == key(s[a]));
        }
        if k == key(x) {
            assert(key(t[i]) == k);
        }
    }
    assert forall|k: u128| #[trigger] keyed(t, key).contains_key(k) implies keyed(t, key)[k]
        == m[k] by {
        let a = choose|a: int| 0 <= a < t.len() && key(t[a]) == k;
        lemma_keyed_index(t, key, a);
        if a != i {
            assert(key(t[a]) == key(s[a]));
            lemma_keyed_index(s, key, a);
        }
    }
    assert(keyed(t, key) =~= m);
}

pub proof fn lemma_keyed_push<T>(s: Seq<T>, key: spec_fn(T) -> u128, x: T)
    requires
        unique_keys(s, key),
        !keyed(s, key).contains_key(key(x)),
    ensures
        unique_keys(s.push(x), key),
        keyed(s.push(x), key) == keyed(s, key).insert(key(x), x),
{
    let t = s.push(x);
    assert(unique_keys(t, key)) by {
        assert forall|a: int, b: int|
            0 <= a < t.len() && 0 <= b < t.len() && key(t[a]) == key(t[b]) implies a == b by {
            if a < s.len() {
                assert(t[a] == s[a]);
            }
            if b < s.len() {
                assert(t[b] == s[b]);
            }
            if a < s.len() && b == s.len() {
                assert(has_key(s, key, key(x)));
            }
            if b < s.len() && a == s.len() {
                assert(has_key(s, key, key(x)));
            }
        }
    }
    let m = keyed(s, key).insert(key(x), x);
    assert forall|k: u128| #[trigger] keyed(t, key).contains_key(k) <==> m.contains_key(k) by {
        if has_key(t, key, k) {
            let a = choose|a: int| 0 <= a < t.len() && key(t[a]) == k;
            if a < s.len() {
                assert(t[a] == s[a]);
            }
        }
        if has_key(s, key, k) {
            let a = choose|a: int| 0 <= a < s.len() && key(s[a]) == k;
            assert(t[a] == s[a]);
        }
        if k == key(x) {
            assert(t[s.len() as int] == x);
        }
    }
    assert forall|k: u128| #[trigger] keyed(t, key).contains_key(k) implies keyed(t, key)[k]
        == m[k] by {
        let a = choose|a: int| 0 <= a < t.len() && key(t[a]) == k;
        lemma_keyed_index(t, key, a);
        if a < s.len() {
            assert(t[a] == s[a]);
            lemma_keyed_index(s, key, a);
        }
    }
    assert(keyed(t, key) =~= m);
}

} // verus!
