//! Association lists as mathematical sequences of pairs, read as maps in
//! which a later pair overrides an earlier one with the same key.

use vstd::prelude::*;

verus! {

/// The map a sequence of pairs stands for: pairs are inserted left to right,
/// so the last pair with a given key decides its value.
pub open spec fn pairs_to_map<K, V>(pairs: Seq<(K, V)>) -> Map<K, V>
    decreases pairs.len(),
{
    if pairs.len() == 0 {
        Map::empty()
    } else {
        pairs_to_map(pairs.drop_last()).insert(pairs.last().0, pairs.last().1)
    }
}

/// No key occurs at two positions.
pub open spec fn unique_keys<K, V>(pairs: Seq<(K, V)>) -> bool {
    forall|i: int, j: int|
        0 <= i < pairs.len() && 0 <= j < pairs.len() && i != j ==> pairs[i].0 != pairs[j].0
}

/// Appending a pair inserts it into the map.
pub proof fn lemma_push_inserts<K, V>(pairs: Seq<(K, V)>, key: K, value: V)
    ensures
        pairs_to_map(pairs.push((key, value))) == pairs_to_map(pairs).insert(key, value),
{
    assert(pairs.push((key, value)).drop_last() =~= pairs);
}

/// A key is in the map exactly when some pair carries it.
pub proof fn lemma_domain<K, V>(pairs: Seq<(K, V)>, key: K)
    ensures
        pairs_to_map(pairs).contains_key(key) <==> exists|i: int|
            0 <= i < pairs.len() && pairs[i].0 == key,
    decreases pairs.len(),
{
    if pairs.len() > 0 {
        let front = pairs.drop_last();
        lemma_domain(front, key);
        if pairs_to_map(pairs).contains_key(key) {
            if pairs.last().0 == key {
                assert(pairs[pairs.len() - 1].0 == key);
            } else {
                let i = choose|i: int| 0 <= i < front.len() && front[i].0 == key;
                assert(pairs[i].0 == key);
            }
        }
        if exists|i: int| 0 <= i < pairs.len() && pairs[i].0 == key {
            let i = choose|i: int| 0 <= i < pairs.len() && pairs[i].0 == key;
            if i < pairs.len() - 1 {
                assert(front[i].0 == key);
            }
        }
    }
}

/// With unique keys, the pair at a position decides the value of its key.
pub proof fn lemma_lookup_at<K, V>(pairs: Seq<(K, V)>, at: int)
    requires
        unique_keys(pairs),
        0 <= at < pairs.len(),
    ensures
        pairs_to_map(pairs).contains_key(pairs[at].0),
        pairs_to_map(pairs)[pairs[at].0] == pairs[at].1,
    decreases pairs.len(),
{
    if at < pairs.len() - 1 {
        let front = pairs.drop_last();
        assert(front[at] == pairs[at]);
        assert(pairs.last() == pairs[pairs.len() - 1]);
        lemma_lookup_at(front, at);
    }
}

/// With unique keys, replacing the value at a position (keeping its key)
/// inserts the new value into the map.
pub proof fn lemma_replace_inserts<K, V>(pairs: Seq<(K, V)>, at: int, value: V)
    requires
        unique_keys(pairs),
        0 <= at < pairs.len(),
    ensures
        unique_keys(pairs.update(at, (pairs[at].0, value))),
        pairs_to_map(pairs.update(at, (pairs[at].0, value))) == pairs_to_map(pairs).insert(
            pairs[at].0,
            value,
        ),
    decreases pairs.len(),
{
    let key = pairs[at].0;
    let replaced = pairs.update(at, (key, value));
    let front = pairs.drop_last();
    if at == pairs.len() - 1 {
        assert(replaced.drop_last() =~= front);
        assert(pairs_to_map(front).insert(key, pairs[at].1).insert(key, value) =~= pairs_to_map(
            front,
        ).insert(key, value));
    } else {
        assert(front[at] == pairs[at]);
        lemma_replace_inserts(front, at, value);
        assert(replaced.drop_last() =~= front.update(at, (key, value)));
        let last = pairs.last();
        assert(last == pairs[pairs.len() - 1]);
        assert(last.0 != key);
        assert(replaced.last() == last);
        assert(pairs_to_map(front).insert(key, value).insert(last.0, last.1) =~= pairs_to_map(
            front,
        ).insert(last.0, last.1).insert(key, value));
    }
}

} // verus!
