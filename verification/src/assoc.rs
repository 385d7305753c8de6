//! Association lists: vectors of `(key, value)` pairs with distinct keys,
//! viewed as finite maps. The inventory read-outs hand agents and
//! observers their items this way, ordered by key.
use vstd::prelude::*;

verus! {

pub open spec fn has_key<K, V>(s: Seq<(K, V)>, k: K) -> bool {
    exists|i: int| 0 <= i < s.len() && #[trigger] s[i].0 == k
}

pub open spec fn keys_unique<K, V>(s: Seq<(K, V)>) -> bool {
    forall|i: int, j: int|
        0 <= i < s.len() && 0 <= j < s.len() && #[trigger] s[i].0 == #[trigger] s[j].0 ==> i == j
}

pub open spec fn key_index<K, V>(s: Seq<(K, V)>, k: K) -> int {
    choose|i: int| 0 <= i < s.len() && #[trigger] s[i].0 == k
}

/// The map an association list stands for.
pub open spec fn assoc_map<K, V>(s: Seq<(K, V)>) -> Map<K, V> {
    Map::new(|k: K| has_key(s, k), |k: K| s[key_index(s, k)].1)
}

/// Keys strictly increase along the list.
pub open spec fn sorted_i32<V>(s: Seq<(i32, V)>) -> bool {
    forall|i: int, j: int| 0 <= i < j < s.len() ==> #[trigger] s[i].0 < #[trigger] s[j].0
}

pub proof fn lemma_sorted_i32_unique<V>(s: Seq<(i32, V)>)
    requires
        sorted_i32(s),
    ensures
        keys_unique(s),
{
    assert forall|i: int, j: int|
        0 <= i < s.len() && 0 <= j < s.len() && #[trigger] s[i].0 == #[trigger] s[j].0 implies i == j by {
        if i < j {
            assert(s[i].0 < s[j].0);
        } else if j < i {
            assert(s[j].0 < s[i].0);
        }
    }
}

/// The entry at index `i` is what the map holds for its key.
pub proof fn lemma_lookup<K, V>(s: Seq<(K, V)>, i: int)
    requires
        keys_unique(s),
        0 <= i < s.len(),
    ensures
        assoc_map(s).contains_key(s[i].0),
        assoc_map(s)[s[i].0] == s[i].1,
        key_index(s, s[i].0) == i,
{
    let k = s[i].0;
    assert(has_key(s, k));
    let j = key_index(s, k);
    assert(s[j].0 == k);
}

/// Position of the first entry whose key is at least `k`, in a list
/// sorted by key.
pub fn lower_bound_i32<V>(s: &Vec<(i32, V)>, k: i32) -> (p: usize)
    requires
        sorted_i32(s@),
    ensures
        p <= s.len(),
        forall|i: int| 0 <= i < p ==> #[trigger] s@[i].0 < k,
        forall|i: int| p <= i < s.len() ==> #[trigger] s@[i].0 >= k,
{
    let mut p: usize = 0;
    while p < s.len() && s[p].0 < k
        invariant
            p <= s.len(),
            sorted_i32(s@),
            forall|i: int| 0 <= i < p ==> #[trigger] s@[i].0 < k,
        decreases s.len() - p,
    {
        p = p + 1;
    }
    assert forall|i: int| p <= i < s.len() implies #[trigger] s@[i].0 >= k by {
        if i > p {
            assert(s@[p as int].0 < s@[i].0);
        }
    }
    p
}

} // verus!
