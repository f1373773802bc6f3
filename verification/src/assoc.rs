//! Association lists read as maps.
//!
//! The attribute maps and the graph's node and edge stores keep their
//! entries in vectors; their contracts speak of the `Map` each vector
//! denotes.  Later entries win, so on a vector with pairwise-distinct keys
//! every entry is visible.

use vstd::prelude::*;

verus! {

/// The map a sequence of pairs denotes; later entries win.
pub open spec fn assoc_map<K, V>(s: Seq<(K, V)>) -> Map<K, V>
    decreases s.len(),
{
    if s.len() == 0 {
        Map::empty()
    } else {
        assoc_map(s.drop_last()).insert(s.last().0, s.last().1)
    }
}

/// No key occurs twice.
pub open spec fn distinct_keys<K, V>(s: Seq<(K, V)>) -> bool {
    forall|i: int, j: int| 0 <= i < j < s.len() ==> s[i].0 != s[j].0
}

/// A map with a batch of pairs folded in; later entries win.
pub open spec fn insert_all<K, V>(m: Map<K, V>, s: Seq<(K, V)>) -> Map<K, V>
    decreases s.len(),
{
    if s.len() == 0 {
        m
    } else {
        insert_all(m, s.drop_last()).insert(s.last().0, s.last().1)
    }
}

/// Folding one more pair in inserts it.
pub proof fn lemma_insert_all_push<K, V>(m: Map<K, V>, s: Seq<(K, V)>, p: (K, V))
    ensures
        insert_all(m, s.push(p)) == insert_all(m, s).insert(p.0, p.1),
{
    assert(s.push(p).drop_last() =~= s);
    assert(s.push(p).last() == p);
}

/// Folding a batch in adds exactly the listed keys to the domain.
pub proof fn lemma_insert_all_dom<K, V>(m: Map<K, V>, s: Seq<(K, V)>)
    ensures
        forall|k: K| #[trigger]
            insert_all(m, s).contains_key(k) <==> m.contains_key(k) || exists|i: int|
                0 <= i < s.len() && s[i].0 == k,
    decreases s.len(),
{
    if s.len() == 0 {
    } else {
        lemma_insert_all_dom(m, s.drop_last());
        assert forall|k: K| #[trigger] insert_all(m, s).contains_key(k) implies m.contains_key(k)
            || exists|i: int| 0 <= i < s.len() && s[i].0 == k by {
            if k == s.last().0 {
                assert(s[s.len() - 1].0 == k);
            } else if !m.contains_key(k) {
                assert(insert_all(m, s.drop_last()).contains_key(k));
                let i = choose|i: int| 0 <= i < s.drop_last().len() && s.drop_last()[i].0 == k;
                assert(s.drop_last()[i] == s[i]);
                assert(s[i].0 == k);
            }
        }
        assert forall|k: K|
            m.contains_key(k) || exists|i: int| 0 <= i < s.len() && s[i].0 == k implies #[trigger]
            insert_all(m, s).contains_key(k) by {
            if !m.contains_key(k) {
                let i = choose|i: int| 0 <= i < s.len() && s[i].0 == k;
                if i < s.len() - 1 {
                    assert(s.drop_last()[i].0 == k);
                    assert(insert_all(m, s.drop_last()).contains_key(k));
                } else {
                    assert(k == s.last().0);
                }
            } else {
                assert(insert_all(m, s.drop_last()).contains_key(k));
            }
        }
    }
}

/// The denoted map's domain is finite and holds exactly the listed keys.
pub proof fn lemma_assoc_map_dom<K, V>(s: Seq<(K, V)>)
    ensures
        assoc_map(s).dom().finite(),
        forall|k: K| #[trigger]
            assoc_map(s).contains_key(k) <==> exists|i: int| 0 <= i < s.len() && s[i].0 == k,
    decreases s.len(),
{
    if s.len() == 0 {
    } else {
        lemma_assoc_map_dom(s.drop_last());
        assert forall|k: K| #[trigger] assoc_map(s).contains_key(k) implies exists|i: int|
            0 <= i < s.len() && s[i].0 == k by {
            if k == s.last().0 {
                assert(s[s.len() - 1].0 == k);
            } else {
                let i = choose|i: int| 0 <= i < s.drop_last().len() && s.drop_last()[i].0 == k;
                assert(s[i].0 == k);
            }
        }
        assert forall|k: K| exists|i: int| 0 <= i < s.len() && s[i].0 == k implies #[trigger]
            assoc_map(s).contains_key(k) by {
            let i = choose|i: int| 0 <= i < s.len() && s[i].0 == k;
            if i < s.len() - 1 {
                assert(s.drop_last()[i].0 == k);
            }
        }
    }
}

/// An entry whose key does not recur later is what the map yields for it.
pub proof fn lemma_assoc_map_index<K, V>(s: Seq<(K, V)>, i: int)
    requires
        0 <= i < s.len(),
        forall|j: int| i < j < s.len() ==> s[j].0 != s[i].0,
    ensures
        assoc_map(s).contains_key(s[i].0),
        assoc_map(s)[s[i].0] == s[i].1,
    decreases s.len(),
{
    if i == s.len() - 1 {
    } else {
        assert(s.drop_last()[i] == s[i]);
        lemma_assoc_map_index(s.drop_last(), i);
    }
}

/// With pairwise-distinct keys the map is exactly as large as the list.
pub proof fn lemma_assoc_map_len<K, V>(s: Seq<(K, V)>)
    requires
        distinct_keys(s),
    ensures
        assoc_map(s).dom().len() == s.len(),
    decreases s.len(),
{
    if s.len() == 0 {
        assert(assoc_map(s).dom() =~= Set::<K>::empty());
    } else {
        lemma_assoc_map_len(s.drop_last());
        lemma_assoc_map_dom(s.drop_last());
        assert(!assoc_map(s.drop_last()).contains_key(s.last().0));
        assert(assoc_map(s).dom() =~= assoc_map(s.drop_last()).dom().insert(s.last().0));
        vstd::set::axiom_set_insert_len(assoc_map(s.drop_last()).dom(), s.last().0);
    }
}

/// Appending a pair inserts it into the denoted map.
pub proof fn lemma_assoc_map_push<K, V>(s: Seq<(K, V)>, p: (K, V))
    ensures
        assoc_map(s.push(p)) == assoc_map(s).insert(p.0, p.1),
{
    assert(s.push(p).drop_last() =~= s);
    assert(s.push(p).last() == p);
}

/// Overwriting an entry in place updates the denoted map at its key.
pub proof fn lemma_assoc_map_update<K, V>(s: Seq<(K, V)>, i: int, p: (K, V))
    requires
        distinct_keys(s),
        0 <= i < s.len(),
        s[i].0 == p.0,
    ensures
        assoc_map(s.update(i, p)) == assoc_map(s).insert(p.0, p.1),
{
    let t = s.update(i, p);
    lemma_assoc_map_dom(s);
    lemma_assoc_map_dom(t);
    assert forall|k: K| #[trigger]
        assoc_map(t).contains_key(k) == assoc_map(s).insert(p.0, p.1).contains_key(k) by {
        if assoc_map(t).contains_key(k) {
            let j = choose|j: int| 0 <= j < t.len() && t[j].0 == k;
            if j != i {
                assert(s[j].0 == k);
            }
        }
        if assoc_map(s).insert(p.0, p.1).contains_key(k) {
            if k == p.0 {
                assert(t[i].0 == k);
            } else {
                let j = choose|j: int| 0 <= j < s.len() && s[j].0 == k;
                assert(t[j].0 == k);
            }
        }
    }
    assert forall|k: K| assoc_map(t).contains_key(k) implies #[trigger] assoc_map(t)[k]
        == assoc_map(s).insert(p.0, p.1)[k] by {
        if k == p.0 {
            lemma_assoc_map_index(t, i);
        } else {
            let j = choose|j: int| 0 <= j < s.len() && s[j].0 == k;
            assert(j != i);
            lemma_assoc_map_index(s, j);
            assert(t[j].0 == k);
            lemma_assoc_map_index(t, j);
        }
    }
    assert(assoc_map(t) =~= assoc_map(s).insert(p.0, p.1));
}

/// Deleting an entry removes its key from the denoted map.
pub proof fn lemma_assoc_map_remove<K, V>(s: Seq<(K, V)>, i: int)
    requires
        distinct_keys(s),
        0 <= i < s.len(),
    ensures
        assoc_map(s.remove(i)) == assoc_map(s).remove(s[i].0),
    decreases s.len(),
{
    if i == s.len() - 1 {
        assert(s.remove(i) =~= s.drop_last());
        lemma_assoc_map_dom(s.drop_last());
        assert(!assoc_map(s.drop_last()).contains_key(s[i].0));
        assert(assoc_map(s.drop_last()).insert(s.last().0, s.last().1).remove(s[i].0)
            =~= assoc_map(s.drop_last()));
    } else {
        let t = s.remove(i);
        assert(t.drop_last() =~= s.drop_last().remove(i));
        assert(t.last() == s.last());
        assert(s.drop_last()[i] == s[i]);
        lemma_assoc_map_remove(s.drop_last(), i);
        assert(s.last().0 != s[i].0);
        assert(assoc_map(s.drop_last()).remove(s[i].0).insert(s.last().0, s.last().1)
            =~= assoc_map(s.drop_last()).insert(s.last().0, s.last().1).remove(s[i].0));
    }
}

} // verus!
