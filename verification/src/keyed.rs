//! Sequences of entries with distinct string keys, read as finite maps.
//! The registry and the router keep their tables this way.

use vstd::prelude::*;

verus! {

/// No two entries of `s` share a key.
pub open spec fn keys_unique<T>(s: Seq<T>, key: spec_fn(T) -> Seq<char>) -> bool {
    forall|i: int, j: int| 0 <= i < j < s.len() ==> key(s[i]) != key(s[j])
}

/// The map from each entry's key to the entry; a later entry wins.
pub open spec fn keyed_map<T>(s: Seq<T>, key: spec_fn(T) -> Seq<char>) -> Map<Seq<char>, T>
    decreases s.len(),
{
    if s.len() == 0 {
        Map::empty()
    } else {
        keyed_map(s.drop_last(), key).insert(key(s.last()), s.last())
    }
}

/// The keys of the map are exactly the keys of the entries.
pub proof fn lemma_keyed_dom<T>(s: Seq<T>, key: spec_fn(T) -> Seq<char>, k: Seq<char>)
    ensures
        keyed_map(s, key).contains_key(k) <==> exists|i: int| 0 <= i < s.len() && key(s[i]) == k,
    decreases s.len(),
{
    if s.len() > 0 {
        let d = s.drop_last();
        lemma_keyed_dom(d, key, k);
        if keyed_map(s, key).contains_key(k) {
            if key(s.last()) == k {
                assert(key(s[s.len() - 1]) == k);
            } else {
                let i = choose|i: int| 0 <= i < d.len() && key(d[i]) == k;
                assert(key(s[i]) == k);
            }
        }
        if exists|i: int| 0 <= i < s.len() && key(s[i]) == k {
            let i = choose|i: int| 0 <= i < s.len() && key(s[i]) == k;
            if i < s.len() - 1 {
                assert(key(d[i]) == k);
            }
        }
    }
}

/// With distinct keys, each entry is what the map holds under its key.
pub proof fn lemma_keyed_index<T>(s: Seq<T>, key: spec_fn(T) -> Seq<char>, i: int)
    requires
        keys_unique(s, key),
        0 <= i < s.len(),
    ensures
        keyed_map(s, key).contains_key(key(s[i])),
        keyed_map(s, key)[key(s[i])] == s[i],
    decreases s.len(),
{
    if i < s.len() - 1 {
        let d = s.drop_last();
        assert(keys_unique(d, key));
        lemma_keyed_index(d, key, i);
        assert(key(s[i]) != key(s[s.len() - 1]));
    }
}

/// Appending an entry inserts it under its key.
pub proof fn lemma_keyed_push<T>(s: Seq<T>, key: spec_fn(T) -> Seq<char>, x: T)
    ensures
        keyed_map(s.push(x), key) == keyed_map(s, key).insert(key(x), x),
{
    assert(s.push(x).drop_last() =~= s);
}

/// Replacing entry `i` by one with the same key replaces the map's value.
pub proof fn lemma_keyed_update<T>(s: Seq<T>, key: spec_fn(T) -> Seq<char>, i: int, x: T)
    requires
        keys_unique(s, key),
        0 <= i < s.len(),
        key(x) == key(s[i]),
    ensures
        keys_unique(s.update(i, x), key),
        keyed_map(s.update(i, x), key) == keyed_map(s, key).insert(key(x), x),
    decreases s.len(),
{
    let u = s.update(i, x);
    let d = s.drop_last();
    if i == s.len() - 1 {
        assert(u.drop_last() =~= d);
        assert(keyed_map(u, key) =~= keyed_map(s, key).insert(key(x), x));
    } else {
        assert(u.drop_last() =~= d.update(i, x));
        assert(keys_unique(d, key));
        lemma_keyed_update(d, key, i, x);
        assert(key(s.last()) != key(x));
        assert(keyed_map(u, key) =~= keyed_map(s, key).insert(key(x), x));
    }
}

/// Removing entry `i` removes its key from the map.
pub proof fn lemma_keyed_remove<T>(s: Seq<T>, key: spec_fn(T) -> Seq<char>, i: int)
    requires
        keys_unique(s, key),
        0 <= i < s.len(),
    ensures
        keys_unique(s.remove(i), key),
        keyed_map(s.remove(i), key) == keyed_map(s, key).remove(key(s[i])),
    decreases s.len(),
{
    let r = s.remove(i);
    let d = s.drop_last();
    assert(keys_unique(d, key));
    assert(keys_unique(r, key)) by {
        assert forall|a: int, b: int| 0 <= a < b < r.len() implies key(r[a]) != key(r[b]) by {
            let a2 = if a < i { a } else { a + 1 };
            let b2 = if b < i { b } else { b + 1 };
            assert(r[a] == s[a2]);
            assert(r[b] == s[b2]);
        }
    }
    if i == s.len() - 1 {
        assert(r =~= d);
        lemma_keyed_dom(d, key, key(s[i]));
        if keyed_map(d, key).contains_key(key(s[i])) {
            let j = choose|j: int| 0 <= j < d.len() && key(d[j]) == key(s[i]);
            assert(key(s[j]) == key(s[i]));
        }
        assert(keyed_map(r, key) =~= keyed_map(s, key).remove(key(s[i])));
    } else {
        assert(r.drop_last() =~= d.remove(i));
        assert(r.last() == s.last());
        lemma_keyed_remove(d, key, i);
        assert(key(s.last()) != key(s[i]));
        assert(keyed_map(r, key) =~= keyed_map(s, key).remove(key(s[i])));
    }
}

/// Appending an entry whose key is new keeps the keys distinct.
pub proof fn lemma_keyed_push_unique<T>(s: Seq<T>, key: spec_fn(T) -> Seq<char>, x: T)
    requires
        keys_unique(s, key),
        !keyed_map(s, key).contains_key(key(x)),
    ensures
        keys_unique(s.push(x), key),
{
    let p = s.push(x);
    assert forall|a: int, b: int| 0 <= a < b < p.len() implies key(p[a]) != key(p[b]) by {
        if b == s.len() {
            lemma_keyed_dom(s, key, key(x));
            assert(key(s[a]) == key(p[a]));
        } else {
            assert(p[a] == s[a] && p[b] == s[b]);
        }
    }
}

} // verus!
