//! Sums over the entries of an ordered map, and how they move when an entry
//! is added or replaced.

use vstd::prelude::*;

verus! {

/// The sum of `weigh` over the first `upto` entries.
pub open spec fn sum_upto<K, V>(
    keys: Seq<K>,
    vals: Seq<V>,
    weigh: spec_fn(K, V) -> int,
    upto: int,
) -> int
    decreases upto,
{
    if upto <= 0 {
        0
    } else {
        sum_upto(keys, vals, weigh, upto - 1) + weigh(keys[upto - 1], vals[upto - 1])
    }
}

/// The sum of `weigh` over all entries.
pub open spec fn sum_all<K, V>(keys: Seq<K>, vals: Seq<V>, weigh: spec_fn(K, V) -> int) -> int {
    sum_upto(keys, vals, weigh, keys.len() as int)
}

/// Replacing the value of one entry moves the sum by the difference of the
/// two weights.
pub proof fn lemma_sum_update<K, V>(
    keys: Seq<K>,
    vals: Seq<V>,
    weigh: spec_fn(K, V) -> int,
    i: int,
    v: V,
)
    requires
        keys.len() == vals.len(),
        0 <= i < keys.len(),
    ensures
        sum_all(keys, vals.update(i, v), weigh) == sum_all(keys, vals, weigh) - weigh(
            keys[i],
            vals[i],
        ) + weigh(keys[i], v),
{
    lemma_sum_update_upto(keys, vals, weigh, i, v, keys.len() as int);
}

proof fn lemma_sum_update_upto<K, V>(
    keys: Seq<K>,
    vals: Seq<V>,
    weigh: spec_fn(K, V) -> int,
    i: int,
    v: V,
    upto: int,
)
    requires
        keys.len() == vals.len(),
        0 <= i < keys.len(),
        0 <= upto <= keys.len(),
    ensures
        sum_upto(keys, vals.update(i, v), weigh, upto) == sum_upto(keys, vals, weigh, upto) + (
        if i < upto {
            weigh(keys[i], v) - weigh(keys[i], vals[i])
        } else {
            0
        }),
    decreases upto,
{
    if upto > 0 {
        lemma_sum_update_upto(keys, vals, weigh, i, v, upto - 1);
    }
}

/// Adding an entry raises the sum by its weight.
pub proof fn lemma_sum_insert<K, V>(
    keys: Seq<K>,
    vals: Seq<V>,
    weigh: spec_fn(K, V) -> int,
    i: int,
    k: K,
    v: V,
)
    requires
        keys.len() == vals.len(),
        0 <= i <= keys.len(),
    ensures
        sum_all(keys.insert(i, k), vals.insert(i, v), weigh) == sum_all(keys, vals, weigh) + weigh(
            k,
            v,
        ),
{
    lemma_sum_insert_upto(keys, vals, weigh, i, k, v, keys.len() as int + 1);
}

proof fn lemma_sum_insert_upto<K, V>(
    keys: Seq<K>,
    vals: Seq<V>,
    weigh: spec_fn(K, V) -> int,
    i: int,
    k: K,
    v: V,
    upto: int,
)
    requires
        keys.len() == vals.len(),
        0 <= i <= keys.len(),
        0 <= upto <= keys.len() + 1,
    ensures
        sum_upto(keys.insert(i, k), vals.insert(i, v), weigh, upto) == (if upto <= i {
            sum_upto(keys, vals, weigh, upto)
        } else {
            sum_upto(keys, vals, weigh, upto - 1) + weigh(k, v)
        }),
    decreases upto,
{
    if upto > 0 {
        lemma_sum_insert_upto(keys, vals, weigh, i, k, v, upto - 1);
        let keys2 = keys.insert(i, k);
        let vals2 = vals.insert(i, v);
        if upto - 1 < i {
            assert(keys2[upto - 1] == keys[upto - 1]);
            assert(vals2[upto - 1] == vals[upto - 1]);
        } else if upto - 1 == i {
            assert(keys2[upto - 1] == k);
            assert(vals2[upto - 1] == v);
        } else {
            assert(keys2[upto - 1] == keys[upto - 2]);
            assert(vals2[upto - 1] == vals[upto - 2]);
        }
    }
}

/// Where no weight is negative, the sum is not negative and no single weight
/// exceeds it.
pub proof fn lemma_sum_bounds<K, V>(
    keys: Seq<K>,
    vals: Seq<V>,
    weigh: spec_fn(K, V) -> int,
    i: int,
)
    requires
        keys.len() == vals.len(),
        0 <= i < keys.len(),
        forall|j: int| 0 <= j < keys.len() ==> weigh(#[trigger] keys[j], vals[j]) >= 0,
    ensures
        0 <= weigh(keys[i], vals[i]) <= sum_all(keys, vals, weigh),
{
    lemma_sum_bounds_upto(keys, vals, weigh, i, keys.len() as int);
}

proof fn lemma_sum_bounds_upto<K, V>(
    keys: Seq<K>,
    vals: Seq<V>,
    weigh: spec_fn(K, V) -> int,
    i: int,
    upto: int,
)
    requires
        keys.len() == vals.len(),
        0 <= i < keys.len(),
        0 <= upto <= keys.len(),
        forall|j: int| 0 <= j < keys.len() ==> weigh(#[trigger] keys[j], vals[j]) >= 0,
    ensures
        0 <= sum_upto(keys, vals, weigh, upto),
        i < upto ==> weigh(keys[i], vals[i]) <= sum_upto(keys, vals, weigh, upto),
    decreases upto,
{
    if upto > 0 {
        lemma_sum_bounds_upto(keys, vals, weigh, i, upto - 1);
        assert(weigh(keys[upto - 1], vals[upto - 1]) >= 0);
    }
}

/// Where no weight is negative, the sum grows with the number of entries.
pub proof fn lemma_sum_monotone<K, V>(
    keys: Seq<K>,
    vals: Seq<V>,
    weigh: spec_fn(K, V) -> int,
    shorter: int,
    longer: int,
)
    requires
        keys.len() == vals.len(),
        0 <= shorter <= longer <= keys.len(),
        forall|j: int| 0 <= j < keys.len() ==> weigh(#[trigger] keys[j], vals[j]) >= 0,
    ensures
        sum_upto(keys, vals, weigh, shorter) <= sum_upto(keys, vals, weigh, longer),
    decreases longer - shorter,
{
    if shorter < longer {
        lemma_sum_monotone(keys, vals, weigh, shorter, longer - 1);
        assert(weigh(keys[longer - 1], vals[longer - 1]) >= 0);
    }
}

/// Where every weight is zero, so is the sum.
pub proof fn lemma_sum_zero<K, V>(keys: Seq<K>, vals: Seq<V>, weigh: spec_fn(K, V) -> int,
    upto: int)
    requires
        keys.len() == vals.len(),
        upto <= keys.len(),
        forall|j: int| 0 <= j < keys.len() ==> weigh(#[trigger] keys[j], vals[j]) == 0,
    ensures
        sum_upto(keys, vals, weigh, upto) == 0,
    decreases upto,
{
    if upto > 0 {
        lemma_sum_zero(keys, vals, weigh, upto - 1);
        assert(weigh(keys[upto - 1], vals[upto - 1]) == 0);
    }
}

/// Values that weigh the same at every position give the same sum.
pub proof fn lemma_sum_same_terms<K, V>(
    keys: Seq<K>,
    vals: Seq<V>,
    vals2: Seq<V>,
    weigh: spec_fn(K, V) -> int,
    upto: int,
)
    requires
        keys.len() == vals.len(),
        keys.len() == vals2.len(),
        upto <= keys.len(),
        forall|j: int|
            0 <= j < keys.len() ==> weigh(#[trigger] keys[j], vals[j]) == weigh(keys[j], vals2[j]),
    ensures
        sum_upto(keys, vals, weigh, upto) == sum_upto(keys, vals2, weigh, upto),
    decreases upto,
{
    if upto > 0 {
        lemma_sum_same_terms(keys, vals, vals2, weigh, upto - 1);
        assert(weigh(keys[upto - 1], vals[upto - 1]) == weigh(keys[upto - 1], vals2[upto - 1]));
    }
}

} // verus!
