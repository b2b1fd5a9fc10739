//! Association lists with distinct keys, read as finite maps: the model of the
//! library's lookup tables.
use vstd::prelude::*;

verus! {

/// No key occurs twice.
pub open spec fn pairs_unique<K, V>(s: Seq<(K, V)>) -> bool {
    forall|i: int, j: int| 0 <= i < j < s.len() ==> s[i].0 != s[j].0
}

/// Some entry holds key `k`.
pub open spec fn pairs_has<K, V>(s: Seq<(K, V)>, k: K) -> bool {
    exists|i: int| 0 <= i < s.len() && s[i].0 == k
}

/// The map an association list holds.
pub open spec fn pairs_map<K, V>(s: Seq<(K, V)>) -> Map<K, V> {
    Map::new(
        |k: K| pairs_has(s, k),
        |k: K|
            {
                let i = choose|i: int| 0 <= i < s.len() && s[i].0 == k;
                s[i].1
            },
    )
}

/// The entry at `i` is what the map holds under its key.
pub proof fn lemma_pairs_lookup<K, V>(s: Seq<(K, V)>, i: int)
    requires
        pairs_unique(s),
        0 <= i < s.len(),
    ensures
        pairs_map(s).contains_key(s[i].0),
        pairs_map(s)[s[i].0] == s[i].1,
{
    let k = s[i].0;
    assert(0 <= i < s.len() && s[i].0 == k);
    let j = choose|j: int| 0 <= j < s.len() && s[j].0 == k;
    if j < i {
        assert(s[j].0 != s[i].0);
    } else if j > i {
        assert(s[i].0 != s[j].0);
    }
}

/// A key that no entry holds is not in the map.
pub proof fn lemma_pairs_absent<K, V>(s: Seq<(K, V)>, k: K)
    requires
        forall|i: int| 0 <= i < s.len() ==> s[i].0 != k,
    ensures
        !pairs_map(s).contains_key(k),
{
}

/// Replacing the value at `i` updates the map under that key.
pub proof fn lemma_pairs_update<K, V>(s: Seq<(K, V)>, i: int, v: V)
    requires
        pairs_unique(s),
        0 <= i < s.len(),
    ensures
        pairs_unique(s.update(i, (s[i].0, v))),
        pairs_map(s.update(i, (s[i].0, v))) == pairs_map(s).insert(s[i].0, v),
{
    let t = s.update(i, (s[i].0, v));
    assert forall|a: int, b: int| 0 <= a < b < t.len() implies t[a].0 != t[b].0 by {
        assert(t[a].0 == s[a].0);
        assert(t[b].0 == s[b].0);
    }
    let m = pairs_map(s).insert(s[i].0, v);
    assert forall|k: K| #[trigger] pairs_map(t).contains_key(k) <==> m.contains_key(k) by {
        if pairs_has(s, k) {
            let j = choose|j: int| 0 <= j < s.len() && s[j].0 == k;
            assert(t[j].0 == k);
        }
        if pairs_has(t, k) {
            let j = choose|j: int| 0 <= j < t.len() && t[j].0 == k;
            assert(s[j].0 == k);
        }
        if k == s[i].0 {
            assert(t[i].0 == k);
        }
    }
    assert forall|k: K| #[trigger] pairs_map(t).contains_key(k) implies pairs_map(t)[k] == m[k] by {
        let j = choose|j: int| 0 <= j < t.len() && t[j].0 == k;
        lemma_pairs_lookup(t, j);
        if j != i {
            lemma_pairs_lookup(s, j);
        }
    }
    assert(pairs_map(t) =~= m);
}

/// Appending an entry under a new key inserts it into the map.
pub proof fn lemma_pairs_push<K, V>(s: Seq<(K, V)>, k: K, v: V)
    requires
        pairs_unique(s),
        !pairs_map(s).contains_key(k),
    ensures
        pairs_unique(s.push((k, v))),
        pairs_map(s.push((k, v))) == pairs_map(s).insert(k, v),
{
    let t = s.push((k, v));
    assert forall|a: int, b: int| 0 <= a < b < t.len() implies t[a].0 != t[b].0 by {
        if b == s.len() {
            assert(t[a] == s[a]);
            if s[a].0 == k {
                assert(pairs_has(s, k));
            }
        }
    }
    let m = pairs_map(s).insert(k, v);
    assert forall|x: K| #[trigger] pairs_map(t).contains_key(x) <==> m.contains_key(x) by {
        if pairs_has(s, x) {
            let j = choose|j: int| 0 <= j < s.len() && s[j].0 == x;
            assert(t[j].0 == x);
        }
        if pairs_has(t, x) {
            let j = choose|j: int| 0 <= j < t.len() && t[j].0 == x;
            if j < s.len() {
                assert(s[j].0 == x);
            }
        }
        if x == k {
            assert(t[s.len() as int].0 == x);
        }
    }
    assert forall|x: K| #[trigger] pairs_map(t).contains_key(x) implies pairs_map(t)[x] == m[x] by {
        let j = choose|j: int| 0 <= j < t.len() && t[j].0 == x;
        lemma_pairs_lookup(t, j);
        if j < s.len() {
            lemma_pairs_lookup(s, j);
        }
    }
    assert(pairs_map(t) =~= m);
}

/// Removing the entry at `i` removes its key from the map.
pub proof fn lemma_pairs_remove<K, V>(s: Seq<(K, V)>, i: int)
    requires
        pairs_unique(s),
        0 <= i < s.len(),
    ensures
        pairs_unique(s.remove(i)),
        pairs_map(s.remove(i)) == pairs_map(s).remove(s[i].0),
{
    let t = s.remove(i);
    assert forall|a: int, b: int| 0 <= a < b < t.len() implies t[a].0 != t[b].0 by {
        let a2 = if a < i { a } else { a + 1 };
        let b2 = if b < i { b } else { b + 1 };
        assert(t[a] == s[a2]);
        assert(t[b] == s[b2]);
    }
    let m = pairs_map(s).remove(s[i].0);
    assert forall|k: K| #[trigger] pairs_map(t).contains_key(k) <==> m.contains_key(k) by {
        if m.contains_key(k) {
            let j = choose|j: int| 0 <= j < s.len() && s[j].0 == k;
            assert(j != i);
            let j2 = if j < i { j } else { j - 1 };
            assert(t[j2] == s[j]);
        }
        if pairs_has(t, k) {
            let j = choose|j: int| 0 <= j < t.len() && t[j].0 == k;
            let j2 = if j < i { j } else { j + 1 };
            assert(t[j] == s[j2]);
            assert(s[j2].0 != s[i].0);
        }
    }
    assert forall|k: K| #[trigger] pairs_map(t).contains_key(k) implies pairs_map(t)[k] == m[k] by {
        let j = choose|j: int| 0 <= j < t.len() && t[j].0 == k;
        let j2 = if j < i { j } else { j + 1 };
        assert(t[j] == s[j2]);
        lemma_pairs_lookup(t, j);
        lemma_pairs_lookup(s, j2);
    }
    assert(pairs_map(t) =~= m);
}

/// The map of the empty list is empty.
pub proof fn lemma_pairs_empty<K, V>(s: Seq<(K, V)>)
    requires
        s.len() == 0,
    ensures
        pairs_unique(s),
        pairs_map(s) == Map::<K, V>::empty(),
{
    assert(pairs_map(s) =~= Map::<K, V>::empty());
}

} // verus!
