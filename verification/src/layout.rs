//! Where each layer's parameters lie in the flat parameter vector.
//!
//! The parameters of all layers are kept in one vector, layer after layer.
//! Layer `i` owns the range that starts where the ranges of the layers
//! before it end, and that is as long as its parameter count.

use vstd::prelude::*;

verus! {

/// The sum of the first `i` parameter counts: where the range of layer `i`
/// starts, and for `i == counts.len()` the length of the whole vector.
pub open spec fn offset_of(counts: Seq<usize>, i: int) -> int
    recommends
        0 <= i <= counts.len(),
    decreases i,
{
    if i <= 0 {
        0
    } else {
        offset_of(counts, i - 1) + counts[i - 1]
    }
}

/// The length of a parameter vector that serves all the layers.
pub open spec fn total_params(counts: Seq<usize>) -> int {
    offset_of(counts, counts.len() as int)
}

pub open spec fn range_start(counts: Seq<usize>, i: int) -> int {
    offset_of(counts, i)
}

pub open spec fn range_end(counts: Seq<usize>, i: int) -> int {
    offset_of(counts, i) + counts[i]
}

/// The part of `weights` that belongs to layer `i`.
pub open spec fn span<T>(counts: Seq<usize>, weights: Seq<T>, i: int) -> Seq<T> {
    weights.subrange(range_start(counts, i), range_end(counts, i))
}

/// The parts of the first `k` layers, one after another.
pub open spec fn concat_spans<T>(counts: Seq<usize>, weights: Seq<T>, k: int) -> Seq<T>
    decreases k,
{
    if k <= 0 {
        Seq::empty()
    } else {
        concat_spans(counts, weights, k - 1) + span(counts, weights, k - 1)
    }
}

/// Offsets do not decrease with the layer index.
pub proof fn lemma_offset_monotone(counts: Seq<usize>, i: int, j: int)
    requires
        0 <= i <= j <= counts.len(),
    ensures
        0 <= offset_of(counts, i) <= offset_of(counts, j),
    decreases j,
{
    if i < j {
        lemma_offset_monotone(counts, i, j - 1);
    } else if 0 < i {
        lemma_offset_monotone(counts, i - 1, j - 1);
    }
}

/// Every layer's range lies inside a vector of the total length.
pub proof fn lemma_range_in_bounds(counts: Seq<usize>, i: int)
    requires
        0 <= i < counts.len(),
    ensures
        0 <= range_start(counts, i) <= range_end(counts, i) <= total_params(counts),
        range_end(counts, i) == offset_of(counts, i + 1),
{
    lemma_offset_monotone(counts, 0, i);
    lemma_offset_monotone(counts, i + 1, counts.len() as int);
}

/// A layer added at the end leaves the earlier offsets as they were.
pub proof fn lemma_offset_push(counts: Seq<usize>, count: usize, i: int)
    requires
        0 <= i <= counts.len(),
    ensures
        offset_of(counts.push(count), i) == offset_of(counts, i),
    decreases i,
{
    if 0 < i {
        lemma_offset_push(counts, count, i - 1);
    }
}

/// A layer added at the end makes the total grow by its count.
pub proof fn lemma_total_push(counts: Seq<usize>, count: usize)
    ensures
        total_params(counts.push(count)) == total_params(counts) + count,
{
    lemma_offset_push(counts, count, counts.len() as int);
}

/// The parts of the first `k` layers make up the vector up to the start of
/// layer `k`.
pub proof fn lemma_concat_spans_is_prefix<T>(counts: Seq<usize>, weights: Seq<T>, k: int)
    requires
        total_params(counts) == weights.len(),
        0 <= k <= counts.len(),
    ensures
        concat_spans(counts, weights, k) == weights.subrange(0, offset_of(counts, k)),
    decreases k,
{
    if k > 0 {
        lemma_concat_spans_is_prefix(counts, weights, k - 1);
        lemma_range_in_bounds(counts, k - 1);
    }
}

/// The layers' ranges tile the parameter vector. Where the vector is as long
/// as the layers' counts add up to, the ranges start at zero, each is as
/// long as its layer's count and ends where the next one starts, no two of
/// them overlap, the last one ends at the end of the vector, and the parts
/// they cut out, put together in layer order, are the vector again.
pub proof fn lemma_ranges_partition<T>(counts: Seq<usize>, weights: Seq<T>)
    requires
        total_params(counts) == weights.len(),
    ensures
        counts.len() > 0 ==> range_start(counts, 0) == 0,
        counts.len() > 0 ==> range_end(counts, counts.len() - 1) == weights.len(),
        forall|i: int|
            #![trigger range_start(counts, i)]
            #![trigger range_end(counts, i)]
            0 <= i < counts.len() ==> 0 <= range_start(counts, i) <= range_end(counts, i)
                <= weights.len(),
        forall|i: int|
            #![trigger range_end(counts, i)]
            0 <= i < counts.len() - 1 ==> range_end(counts, i) == range_start(counts, i + 1),
        forall|i: int, j: int|
            #![trigger range_end(counts, i), range_start(counts, j)]
            0 <= i < j < counts.len() ==> range_end(counts, i) <= range_start(counts, j),
        forall|i: int|
            0 <= i < counts.len() ==> (#[trigger] span(counts, weights, i)).len() == counts[i],
        concat_spans(counts, weights, counts.len() as int) == weights,
{
    assert forall|i: int|
        #![trigger range_start(counts, i)]
        #![trigger range_end(counts, i)]
        0 <= i < counts.len() implies 0 <= range_start(counts, i) <= range_end(counts, i)
        <= weights.len() by {
        lemma_range_in_bounds(counts, i);
    }
    assert forall|i: int|
        #![trigger range_end(counts, i)]
        0 <= i < counts.len() - 1 implies range_end(counts, i) == range_start(counts, i + 1) by {
        lemma_range_in_bounds(counts, i);
    }
    assert forall|i: int, j: int|
        #![trigger range_end(counts, i), range_start(counts, j)]
        0 <= i < j < counts.len() implies range_end(counts, i) <= range_start(counts, j) by {
        lemma_range_in_bounds(counts, i);
        lemma_offset_monotone(counts, i + 1, j);
    }
    assert forall|i: int| 0 <= i < counts.len() implies (#[trigger] span(counts, weights, i)).len()
        == counts[i] by {
        lemma_range_in_bounds(counts, i);
    }
    if counts.len() > 0 {
        lemma_range_in_bounds(counts, counts.len() - 1);
    }
    lemma_concat_spans_is_prefix(counts, weights, counts.len() as int);
}

} // verus!
