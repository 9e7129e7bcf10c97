//! A mathematical model for association lists.
//!
//! The ledger and the per-account tables are stored as vectors of key/value
//! pairs with pairwise-distinct keys (compared by view).  These spec
//! functions interpret such a sequence as a `Map` from key views to value
//! views, and the lemmas relate the usual sequence operations (push, update)
//! to map insertion.
use vstd::prelude::*;

verus! {

/// The map denoted by an association list: each pair contributes one entry,
/// later pairs overriding earlier ones (irrelevant once keys are distinct).
pub open spec fn pair_map<K: View, V: View>(s: Seq<(K, V)>) -> Map<K::V, V::V>
    decreases s.len(),
{
    if s.len() == 0 {
        Map::empty()
    } else {
        pair_map(s.drop_last()).insert(s.last().0@, s.last().1@)
    }
}

/// Keys are pairwise distinct, compared by view.
pub open spec fn keys_distinct<K: View, V>(s: Seq<(K, V)>) -> bool {
    forall|i: int, j: int| 0 <= i < j < s.len() ==> s[i].0@ != s[j].0@
}

/// Membership in the denoted map is existence of an entry with that key.
pub proof fn lemma_pair_map_domain<K: View, V: View>(s: Seq<(K, V)>, k: K::V)
    ensures
        pair_map(s).contains_key(k) <==> exists|i: int| 0 <= i < s.len() && s[i].0@ == k,
    decreases s.len(),
{
    if s.len() > 0 {
        lemma_pair_map_domain(s.drop_last(), k);
        if pair_map(s).contains_key(k) && s.last().0@ != k {
            let i = choose|i: int| 0 <= i < s.drop_last().len() && s.drop_last()[i].0@ == k;
            assert(s[i].0@ == k);
        }
        if exists|i: int| 0 <= i < s.len() && s[i].0@ == k {
            let i = choose|i: int| 0 <= i < s.len() && s[i].0@ == k;
            if i < s.len() - 1 {
                assert(s.drop_last()[i].0@ == k);
            }
        }
    }
}

/// With distinct keys, the entry at any index gives the map's value there.
pub proof fn lemma_pair_map_index<K: View, V: View>(s: Seq<(K, V)>, i: int)
    requires
        keys_distinct(s),
        0 <= i < s.len(),
    ensures
        pair_map(s).contains_key(s[i].0@),
        pair_map(s)[s[i].0@] == s[i].1@,
    decreases s.len(),
{
    lemma_pair_map_domain(s, s[i].0@);
    if i < s.len() - 1 {
        assert(keys_distinct(s.drop_last()));
        lemma_pair_map_index(s.drop_last(), i);
        assert(s.last().0@ != s[i].0@);
    }
}

/// Pushing a pair denotes inserting its entry.
pub proof fn lemma_pair_map_push<K: View, V: View>(s: Seq<(K, V)>, k: K, v: V)
    ensures
        pair_map(s.push((k, v))) == pair_map(s).insert(k@, v@),
{
    assert(s.push((k, v)).drop_last() =~= s);
}

/// With distinct keys, replacing the value at an index denotes inserting
/// that entry's key with the new value.
pub proof fn lemma_pair_map_update<K: View, V: View>(s: Seq<(K, V)>, i: int, k: K, v: V)
    requires
        keys_distinct(s),
        0 <= i < s.len(),
        k@ == s[i].0@,
    ensures
        pair_map(s.update(i, (k, v))) =~= pair_map(s).insert(k@, v@),
    decreases s.len(),
{
    let t = s.update(i, (k, v));
    if i == s.len() - 1 {
        assert(t.drop_last() =~= s.drop_last());
    } else {
        assert(keys_distinct(s.drop_last()));
        assert(t.drop_last() =~= s.drop_last().update(i, (k, v)));
        lemma_pair_map_update(s.drop_last(), i, k, v);
        assert(s.last().0@ != k@);
        assert(t.last() == s.last());
        assert(pair_map(t) =~= pair_map(s.drop_last()).insert(k@, v@).insert(
            s.last().0@,
            s.last().1@,
        ));
    }
}

/// With distinct keys, removing an entry denotes removing its key.
pub proof fn lemma_pair_map_remove<K: View, V: View>(s: Seq<(K, V)>, i: int)
    requires
        keys_distinct(s),
        0 <= i < s.len(),
    ensures
        pair_map(s.remove(i)) =~= pair_map(s).remove(s[i].0@),
        keys_distinct(s.remove(i)),
    decreases s.len(),
{
    lemma_pair_map_domain(s.drop_last(), s.last().0@);
    if i == s.len() - 1 {
        assert(s.remove(i) =~= s.drop_last());
        assert(!pair_map(s.drop_last()).contains_key(s.last().0@));
        assert(pair_map(s.drop_last()).insert(s.last().0@, s.last().1@).remove(s.last().0@)
            =~= pair_map(s.drop_last()));
    } else {
        assert(keys_distinct(s.drop_last()));
        lemma_pair_map_remove(s.drop_last(), i);
        assert(s.remove(i).drop_last() =~= s.drop_last().remove(i));
        assert(s.remove(i).last() == s.last());
        assert(s[i].0@ != s.last().0@);
    }
}

/// Updating an entry in place keeps the keys distinct.
pub proof fn lemma_keys_distinct_update<K: View, V>(s: Seq<(K, V)>, i: int, k: K, v: V)
    requires
        keys_distinct(s),
        0 <= i < s.len(),
        k@ == s[i].0@,
    ensures
        keys_distinct(s.update(i, (k, v))),
{
}

/// Pushing a fresh key keeps the keys distinct.
pub proof fn lemma_keys_distinct_push<K: View, V>(s: Seq<(K, V)>, k: K, v: V)
    requires
        keys_distinct(s),
        forall|i: int| 0 <= i < s.len() ==> s[i].0@ != k@,
    ensures
        keys_distinct(s.push((k, v))),
{
}

} // verus!
