//! Association lists with unique keys: the executable representation behind
//! every lookup index of the chain state, together with the finite `Map` each
//! one holds and the lemmas that relate the list operations to map updates.

use vstd::prelude::*;

verus! {

/// Whether some entry of `s` has key `k`.
pub open spec fn alist_contains<K, V>(s: Seq<(K, V)>, k: K) -> bool {
    exists|i: int| 0 <= i < s.len() && s[i].0 == k
}

/// The value of the last entry with key `k`.
pub open spec fn alist_get<K, V>(s: Seq<(K, V)>, k: K) -> V
    recommends
        alist_contains(s, k),
    decreases s.len(),
{
    if s.len() == 0 {
        arbitrary()
    } else if s.last().0 == k {
        s.last().1
    } else {
        alist_get(s.drop_last(), k)
    }
}

/// No two entries share a key.
pub open spec fn alist_unique<K, V>(s: Seq<(K, V)>) -> bool {
    forall|i: int, j: int| 0 <= i < j < s.len() ==> s[i].0 != s[j].0
}

/// The finite map an association list holds.
pub open spec fn alist_map<K, V>(s: Seq<(K, V)>) -> Map<K, V> {
    Map::new(|k: K| alist_contains(s, k), |k: K| alist_get(s, k))
}

/// In a list with unique keys, the entry at position `i` is the one
/// `alist_get` returns for its key.
pub proof fn lemma_alist_get_at<K, V>(s: Seq<(K, V)>, i: int)
    requires
        alist_unique(s),
        0 <= i < s.len(),
    ensures
        alist_contains(s, s[i].0),
        alist_get(s, s[i].0) == s[i].1,
    decreases s.len(),
{
    if i == s.len() - 1 {
        assert(s.last() == s[i]);
    } else {
        assert(s.last().0 != s[i].0);
        assert(s.drop_last()[i] == s[i]);
        lemma_alist_get_at(s.drop_last(), i);
    }
}

/// Appending an entry updates the held map at that key.
pub proof fn lemma_alist_push<K, V>(s: Seq<(K, V)>, k: K, v: V)
    ensures
        alist_map(s.push((k, v))) =~= alist_map(s).insert(k, v),
        alist_unique(s) && !alist_contains(s, k) ==> alist_unique(s.push((k, v))),
{
    let t = s.push((k, v));
    assert(t.last() == (k, v));
    assert(t.drop_last() =~= s);
    assert forall|x: K| alist_contains(t, x) implies x == k || alist_contains(s, x) by {
        let i = choose|i: int| 0 <= i < t.len() && t[i].0 == x;
        if i < s.len() {
            assert(s[i].0 == x);
        }
    }
    assert forall|x: K| alist_contains(s, x) implies alist_contains(t, x) by {
        let i = choose|i: int| 0 <= i < s.len() && s[i].0 == x;
        assert(t[i].0 == x);
    }
    assert(t[s.len() as int].0 == k);
    if alist_unique(s) && !alist_contains(s, k) {
        assert forall|i: int, j: int| 0 <= i < j < t.len() implies t[i].0 != t[j].0 by {
            if j < s.len() {
                assert(s[i].0 != s[j].0);
            } else {
                assert(t[i].0 == s[i].0);
            }
        }
    }
}

/// Replacing the entry at position `i`, keeping its key, updates the held
/// map at that key.
pub proof fn lemma_alist_update<K, V>(s: Seq<(K, V)>, i: int, v: V)
    requires
        alist_unique(s),
        0 <= i < s.len(),
    ensures
        alist_map(s.update(i, (s[i].0, v))) =~= alist_map(s).insert(s[i].0, v),
        alist_unique(s.update(i, (s[i].0, v))),
    decreases s.len(),
{
    let k = s[i].0;
    let t = s.update(i, (k, v));
    assert(t.len() == s.len());
    assert(forall|j: int| 0 <= j < s.len() ==> t[j].0 == s[j].0);
    assert forall|x: K| alist_contains(t, x) == alist_contains(s, x) by {
        if alist_contains(t, x) {
            let j = choose|j: int| 0 <= j < t.len() && t[j].0 == x;
            assert(s[j].0 == x);
        }
        if alist_contains(s, x) {
            let j = choose|j: int| 0 <= j < s.len() && s[j].0 == x;
            assert(t[j].0 == x);
        }
    }
    lemma_alist_get_update(s, i, v);
    assert forall|x: K| alist_contains(s, x) && x != k implies alist_get(t, x) == alist_get(
        s,
        x,
    ) by {
        lemma_alist_get_update_other(s, i, v, x);
    }
}

/// After the update at `i`, looking up the key of entry `i` yields the new
/// value.
proof fn lemma_alist_get_update<K, V>(s: Seq<(K, V)>, i: int, v: V)
    requires
        alist_unique(s),
        0 <= i < s.len(),
    ensures
        alist_get(s.update(i, (s[i].0, v)), s[i].0) == v,
{
    let t = s.update(i, (s[i].0, v));
    assert(forall|j: int, l: int| 0 <= j < l < t.len() ==> t[j].0 != t[l].0);
    lemma_alist_get_at(t, i);
}

/// After the update at `i`, lookups of other keys are unchanged.
proof fn lemma_alist_get_update_other<K, V>(s: Seq<(K, V)>, i: int, v: V, x: K)
    requires
        alist_unique(s),
        0 <= i < s.len(),
        alist_contains(s, x),
        x != s[i].0,
    ensures
        alist_get(s.update(i, (s[i].0, v)), x) == alist_get(s, x),
{
    let t = s.update(i, (s[i].0, v));
    let j = choose|j: int| 0 <= j < s.len() && s[j].0 == x;
    assert(t[j].0 == x);
    assert(forall|l: int, m: int| 0 <= l < m < t.len() ==> t[l].0 != t[m].0);
    lemma_alist_get_at(s, j);
    lemma_alist_get_at(t, j);
    assert(t[j].1 == s[j].1);
}

} // verus!
