//! Ordering by weight: lower weights come first, and among equal weights what
//! came first stays first.

use vstd::prelude::*;

verus! {

/// Whether the weights never fall from one position to the next.
pub open spec fn ascending(weights: Seq<u32>) -> bool {
    forall|i: int, j: int| 0 <= i <= j < weights.len() ==> weights[i] <= weights[j]
}

/// The first position from `from` on whose weight is above `weight`, or the
/// length where there is none.
pub open spec fn rank_from(weights: Seq<u32>, weight: u32, from: int) -> int
    decreases weights.len() - from,
{
    if from < 0 || from >= weights.len() {
        weights.len() as int
    } else if weights[from] > weight {
        from
    } else {
        rank_from(weights, weight, from + 1)
    }
}

/// The position at which an item of the given weight is placed: behind every
/// item of that weight or a lower one, where the weights are ascending.
pub open spec fn rank(weights: Seq<u32>, weight: u32) -> int {
    rank_from(weights, weight, 0)
}

/// The rank lies within the list; no weight before it is above the given one,
/// and the weight at it is.
pub proof fn lemma_rank_from(weights: Seq<u32>, weight: u32, from: int)
    requires
        0 <= from <= weights.len(),
    ensures
        from <= rank_from(weights, weight, from) <= weights.len(),
        forall|j: int| from <= j < rank_from(weights, weight, from) ==> weights[j] <= weight,
        rank_from(weights, weight, from) < weights.len() ==> weights[rank_from(
            weights,
            weight,
            from,
        )] > weight,
    decreases weights.len() - from,
{
    if from < weights.len() && weights[from] <= weight {
        lemma_rank_from(weights, weight, from + 1);
    }
}

/// Placing a weight at its rank keeps ascending weights ascending.
pub proof fn lemma_placed_ascending(weights: Seq<u32>, weight: u32)
    requires
        ascending(weights),
    ensures
        0 <= rank(weights, weight) <= weights.len(),
        ascending(weights.insert(rank(weights, weight), weight)),
{
    lemma_rank_from(weights, weight, 0);
    let at = rank(weights, weight);
    let after = weights.insert(at, weight);
    assert forall|i: int, j: int| 0 <= i <= j < after.len() implies after[i] <= after[j] by {
        if i < at {
            assert(after[i] == weights[i]);
            assert(weights[i] <= weight);
            if j > at {
                assert(after[j] == weights[j - 1]);
            } else if j < at {
                assert(after[j] == weights[j]);
            }
        } else if i == at {
            if j > at {
                assert(after[j] == weights[j - 1]);
                assert(weights[at] <= weights[j - 1]);
            }
        } else {
            assert(after[i] == weights[i - 1]);
            assert(after[j] == weights[j - 1]);
        }
    }
}

} // verus!
