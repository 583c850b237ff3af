//! Spec-level view of an association list as a finite map, with the lemmas
//! that relate list operations to map operations.

use vstd::prelude::*;

verus! {

/// The map held by a sequence of key-value entries; a later entry for a
/// key shadows an earlier one (the lists in this crate keep keys unique,
/// so nothing is ever shadowed).
pub open spec fn map_of<K, V>(s: Seq<(K, V)>) -> Map<K, V>
    decreases s.len(),
{
    if s.len() == 0 {
        Map::empty()
    } else {
        map_of(s.drop_last()).insert(s.last().0, s.last().1)
    }
}

/// Each key appears at most once in the sequence.
pub open spec fn unique_keys<K, V>(s: Seq<(K, V)>) -> bool {
    forall|i: int, j: int| 0 <= i < j < s.len() ==> s[i].0 != s[j].0
}

/// A key is in the map exactly when some entry carries it.
pub proof fn lemma_map_of_contains<K, V>(s: Seq<(K, V)>, k: K)
    ensures
        map_of(s).contains_key(k) <==> exists|i: int| 0 <= i < s.len() && s[i].0 == k,
    decreases s.len(),
{
    if s.len() > 0 {
        lemma_map_of_contains(s.drop_last(), k);
        if map_of(s).contains_key(k) {
            if s.last().0 == k {
                assert(s[s.len() - 1].0 == k);
            } else {
                let i = choose|i: int| 0 <= i < s.drop_last().len() && s.drop_last()[i].0 == k;
                assert(s[i].0 == k);
            }
        }
        if exists|i: int| 0 <= i < s.len() && s[i].0 == k {
            let i = choose|i: int| 0 <= i < s.len() && s[i].0 == k;
            if i < s.len() - 1 {
                assert(s.drop_last()[i].0 == k);
            }
        }
    }
}

/// With unique keys, the value mapped to an entry's key is the value
/// beside it in the list.
pub proof fn lemma_map_of_index<K, V>(s: Seq<(K, V)>, i: int)
    requires
        unique_keys(s),
        0 <= i < s.len(),
    ensures
        map_of(s).contains_key(s[i].0),
        map_of(s)[s[i].0] == s[i].1,
    decreases s.len(),
{
    if i < s.len() - 1 {
        assert(unique_keys(s.drop_last())) by {
            assert(forall|x: int, y: int|
                0 <= x < y < s.drop_last().len() ==> s.drop_last()[x].0 == s[x].0
                    && s.drop_last()[y].0 == s[y].0);
        }
        lemma_map_of_index(s.drop_last(), i);
        assert(s[i].0 != s.last().0);
    }
}

/// Appending an entry for a fresh key inserts it into the map.
pub proof fn lemma_map_of_push<K, V>(s: Seq<(K, V)>, k: K, v: V)
    ensures
        map_of(s.push((k, v))) == map_of(s).insert(k, v),
{
    assert(s.push((k, v)).drop_last() =~= s);
    assert(s.push((k, v)).last() == (k, v));
}

/// Replacing the value beside a key updates that key in the map.
pub proof fn lemma_map_of_update<K, V>(s: Seq<(K, V)>, i: int, v: V)
    requires
        unique_keys(s),
        0 <= i < s.len(),
    ensures
        map_of(s.update(i, (s[i].0, v))) == map_of(s).insert(s[i].0, v),
    decreases s.len(),
{
    let k = s[i].0;
    let t = s.update(i, (k, v));
    if i == s.len() - 1 {
        assert(t.drop_last() =~= s.drop_last());
        assert(map_of(t) == map_of(s.drop_last()).insert(k, v));
        assert(map_of(s.drop_last()).insert(k, s[i].1).insert(k, v) =~= map_of(
            s.drop_last(),
        ).insert(k, v));
    } else {
        assert(unique_keys(s.drop_last())) by {
            assert(forall|x: int, y: int|
                0 <= x < y < s.drop_last().len() ==> s.drop_last()[x].0 == s[x].0
                    && s.drop_last()[y].0 == s[y].0);
        }
        assert(t.drop_last() =~= s.drop_last().update(i, (s.drop_last()[i].0, v)));
        lemma_map_of_update(s.drop_last(), i, v);
        let lk = s.last().0;
        let lv = s.last().1;
        assert(t.last() == s.last());
        assert(map_of(t) == map_of(s.drop_last()).insert(k, v).insert(lk, lv));
        assert(lk != k);
        assert(map_of(s.drop_last()).insert(k, v).insert(lk, lv) =~= map_of(s.drop_last()).insert(
            lk,
            lv,
        ).insert(k, v));
    }
}

/// Inserting an entry for a fresh key at any position inserts it into the
/// map and leaves every other key as it was.
pub proof fn lemma_map_of_insert_at<K, V>(s: Seq<(K, V)>, i: int, k: K, v: V)
    requires
        unique_keys(s),
        0 <= i <= s.len(),
        forall|j: int| 0 <= j < s.len() ==> s[j].0 != k,
    ensures
        map_of(s.insert(i, (k, v))) == map_of(s).insert(k, v),
        unique_keys(s.insert(i, (k, v))),
    decreases s.len(),
{
    let t = s.insert(i, (k, v));
    assert(unique_keys(t)) by {
        assert(forall|x: int|
            0 <= x < t.len() ==> t[x] == (if x < i {
                s[x]
            } else if x == i {
                (k, v)
            } else {
                s[x - 1]
            }));
    }
    if i == s.len() {
        assert(t =~= s.push((k, v)));
        lemma_map_of_push(s, k, v);
    } else {
        assert(t.drop_last() =~= s.drop_last().insert(i, (k, v)));
        assert(unique_keys(s.drop_last())) by {
            assert(forall|x: int, y: int|
                0 <= x < y < s.drop_last().len() ==> s.drop_last()[x].0 == s[x].0
                    && s.drop_last()[y].0 == s[y].0);
        }
        assert(forall|j: int| 0 <= j < s.drop_last().len() ==> s.drop_last()[j].0 == s[j].0);
        lemma_map_of_insert_at(s.drop_last(), i, k, v);
        assert(t.last() == s.last());
        let lk = s.last().0;
        let lv = s.last().1;
        assert(map_of(t) == map_of(s.drop_last()).insert(k, v).insert(lk, lv));
        assert(s[s.len() - 1].0 == lk);
        assert(lk != k);
        assert(map_of(s.drop_last()).insert(k, v).insert(lk, lv) =~= map_of(s.drop_last()).insert(
            lk,
            lv,
        ).insert(k, v));
    }
}

} // verus!
