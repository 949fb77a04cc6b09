//! Association lists: sequences of key/value pairs read as maps, a later
//! pair for a key replacing an earlier one.

use vstd::prelude::*;

verus! {

/// The map that `p` describes; a later pair for a key replaces an earlier one.
pub open spec fn pairs_map<K, V>(p: Seq<(K, V)>) -> Map<K, V>
    decreases p.len(),
{
    if p.len() == 0 {
        Map::empty()
    } else {
        pairs_map(p.drop_last()).insert(p.last().0, p.last().1)
    }
}

/// No key occurs twice in `p`.
pub open spec fn keys_distinct<K, V>(p: Seq<(K, V)>) -> bool {
    forall|i: int, j: int| 0 <= i < j < p.len() ==> p[i].0 != p[j].0
}

pub proof fn lemma_pairs_map_dom<K, V>(p: Seq<(K, V)>, k: K)
    ensures
        pairs_map(p).dom().contains(k) <==> exists|i: int| 0 <= i < p.len() && p[i].0 == k,
    decreases p.len(),
{
    if p.len() > 0 {
        let q = p.drop_last();
        lemma_pairs_map_dom(q, k);
        if exists|i: int| 0 <= i < p.len() && p[i].0 == k {
            let i = choose|i: int| 0 <= i < p.len() && p[i].0 == k;
            if i < p.len() - 1 {
                assert(q[i].0 == k);
            }
        }
        if exists|i: int| 0 <= i < q.len() && q[i].0 == k {
            let i = choose|i: int| 0 <= i < q.len() && q[i].0 == k;
            assert(p[i].0 == k);
        }
    }
}

pub proof fn lemma_pairs_map_index<K, V>(p: Seq<(K, V)>, i: int)
    requires
        keys_distinct(p),
        0 <= i < p.len(),
    ensures
        pairs_map(p).dom().contains(p[i].0),
        pairs_map(p)[p[i].0] == p[i].1,
    decreases p.len(),
{
    if i < p.len() - 1 {
        let q = p.drop_last();
        assert(q[i] == p[i]);
        lemma_pairs_map_index(q, i);
    }
}

pub proof fn lemma_pairs_map_update<K, V>(p: Seq<(K, V)>, j: int, v: V)
    requires
        keys_distinct(p),
        0 <= j < p.len(),
    ensures
        pairs_map(p.update(j, (p[j].0, v))) == pairs_map(p).insert(p[j].0, v),
    decreases p.len(),
{
    let q = p.update(j, (p[j].0, v));
    if j == p.len() - 1 {
        assert(q.drop_last() == p.drop_last());
        assert(pairs_map(q) =~= pairs_map(p).insert(p[j].0, v));
    } else {
        lemma_pairs_map_update(p.drop_last(), j, v);
        assert(q.drop_last() == p.drop_last().update(j, (p[j].0, v)));
        assert(q.last() == p.last());
        assert(p[j].0 != p.last().0);
        assert(pairs_map(q) =~= pairs_map(p).insert(p[j].0, v));
    }
}

pub proof fn lemma_pairs_map_len<K, V>(p: Seq<(K, V)>)
    requires
        keys_distinct(p),
    ensures
        pairs_map(p).dom().finite(),
        pairs_map(p).len() == p.len(),
    decreases p.len(),
{
    if p.len() > 0 {
        let q = p.drop_last();
        lemma_pairs_map_len(q);
        lemma_pairs_map_dom(q, p.last().0);
        if exists|i: int| 0 <= i < q.len() && q[i].0 == p.last().0 {
            let i = choose|i: int| 0 <= i < q.len() && q[i].0 == p.last().0;
            assert(p[i].0 == p[p.len() - 1].0);
        }
    }
}

} // verus!
