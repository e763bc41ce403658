//! Sums over finite sets.

use vstd::prelude::*;

verus! {

/// The sum of `weight` over a finite set of keys.
pub open spec fn sum_over<K>(keys: Set<K>, weight: spec_fn(K) -> nat) -> nat
    decreases keys.len(),
    when keys.finite()
{
    if keys.is_empty() {
        0
    } else {
        let key = keys.choose();
        weight(key) + sum_over(keys.remove(key), weight)
    }
}

/// The sum over a set is the weight of any one of its keys plus the sum
/// over the rest.
pub proof fn lemma_sum_remove<K>(keys: Set<K>, weight: spec_fn(K) -> nat, key: K)
    requires
        keys.finite(),
        keys.contains(key),
    ensures
        sum_over(keys, weight) == weight(key) + sum_over(keys.remove(key), weight),
    decreases keys.len(),
{
    let chosen = keys.choose();
    if chosen != key {
        lemma_sum_remove(keys.remove(chosen), weight, key);
        lemma_sum_remove(keys.remove(key), weight, chosen);
        assert(keys.remove(chosen).remove(key) =~= keys.remove(key).remove(chosen));
    }
}

/// Adding a new key to a set adds its weight to the sum.
pub proof fn lemma_sum_insert<K>(keys: Set<K>, weight: spec_fn(K) -> nat, key: K)
    requires
        keys.finite(),
        !keys.contains(key),
    ensures
        sum_over(keys.insert(key), weight) == weight(key) + sum_over(keys, weight),
{
    lemma_sum_remove(keys.insert(key), weight, key);
    assert(keys.insert(key).remove(key) =~= keys);
}

/// Two weights that agree on every key of a set have the same sum over it.
pub proof fn lemma_sum_agree<K>(keys: Set<K>, first: spec_fn(K) -> nat, second: spec_fn(K) -> nat)
    requires
        keys.finite(),
        forall|key: K| keys.contains(key) ==> #[trigger] first(key) == second(key),
    ensures
        sum_over(keys, first) == sum_over(keys, second),
    decreases keys.len(),
{
    if !keys.is_empty() {
        let chosen = keys.choose();
        lemma_sum_agree(keys.remove(chosen), first, second);
    }
}

/// No key weighs more than the whole sum.
pub proof fn lemma_sum_bounds_each<K>(keys: Set<K>, weight: spec_fn(K) -> nat, key: K)
    requires
        keys.finite(),
        keys.contains(key),
    ensures
        weight(key) <= sum_over(keys, weight),
{
    lemma_sum_remove(keys, weight, key);
}

} // verus!
