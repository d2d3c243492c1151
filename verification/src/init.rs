//! Building a multilayer perceptron, and drawing initial weights for one.
//!
//! A multilayer perceptron over the sizes `s[0], s[1], .., s[n]` has, for each
//! pair of neighbouring sizes, a dense layer with a bias row followed by an
//! activation layer. The dense layer between `s[i]` and `s[i + 1]` reads
//! `(s[i] + 1) * s[i + 1]` parameters.

use crate::criterion::Criterion;
use crate::error::NetError;
use crate::layer::Layer;
use crate::net::BaseNeuralNet;
use vstd::prelude::*;

verus! {

/// The number of pairs of neighbouring sizes.
pub open spec fn dense_pairs(sizes: Seq<usize>) -> int {
    if sizes.len() < 2 {
        0
    } else {
        sizes.len() - 1
    }
}

/// The parameter count of the dense layer between sizes `i` and `i + 1`,
/// bias row included.
pub open spec fn dense_count(sizes: Seq<usize>, i: int) -> int {
    (sizes[i] + 1) * sizes[i + 1]
}

/// The parameter count of the first `k` dense layers together.
pub open spec fn dense_offset(sizes: Seq<usize>, k: int) -> int
    decreases k,
{
    if k <= 0 {
        0
    } else {
        dense_offset(sizes, k - 1) + dense_count(sizes, k - 1)
    }
}

/// The parameter count of all the dense layers together.
pub open spec fn dense_total(sizes: Seq<usize>) -> int {
    dense_offset(sizes, dense_pairs(sizes))
}

/// Weight `j` of dense layer `b` is one that `sample` may return for that
/// layer's fan-in, bias included, and fan-out.
pub open spec fn drawn_at<T, F: Fn(usize, usize) -> T>(
    weights: Seq<T>,
    sizes: Seq<usize>,
    sample: F,
    b: int,
    j: int,
) -> bool {
    call_ensures(
        sample,
        ((sizes[b] + 1) as usize, sizes[b + 1]),
        weights[dense_offset(sizes, b) + j],
    )
}

/// `sample` can be called for dense layer `b`, if that layer needs any weight
/// at all.
pub open spec fn can_draw<T, F: Fn(usize, usize) -> T>(
    sizes: Seq<usize>,
    sample: F,
    b: int,
) -> bool {
    0 < dense_count(sizes, b) && sizes[b] < usize::MAX ==> call_requires(
        sample,
        ((sizes[b] + 1) as usize, sizes[b + 1]),
    )
}

/// `linear` can be called for sizes `i` and `i + 1`, and `activation` can be
/// called.
pub open spec fn can_build<T, L: Fn(usize, usize) -> Layer<T>, A: Fn() -> Layer<T>>(
    sizes: Seq<usize>,
    linear: L,
    activation: A,
    i: int,
) -> bool {
    &&& call_requires(linear, (sizes[i], sizes[i + 1]))
    &&& call_requires(activation, ())
}

/// Layers `2 * i` and `2 * i + 1` are what `linear` returns for sizes `i`
/// and `i + 1`, and what `activation` returns.
pub open spec fn pair_built<T, L: Fn(usize, usize) -> Layer<T>, A: Fn() -> Layer<T>>(
    layers: Seq<Layer<T>>,
    sizes: Seq<usize>,
    linear: L,
    activation: A,
    i: int,
) -> bool {
    &&& call_ensures(linear, (sizes[i], sizes[i + 1]), layers[2 * i])
    &&& call_ensures(activation, (), layers[2 * i + 1])
}

/// The parameter counts of the dense layers are not negative, so their sums
/// do not decrease.
pub proof fn lemma_dense_offset_monotone(sizes: Seq<usize>, i: int, j: int)
    requires
        0 <= i <= j,
    ensures
        0 <= dense_offset(sizes, i) <= dense_offset(sizes, j),
    decreases j,
{
    if i < j {
        lemma_dense_offset_monotone(sizes, i, j - 1);
    } else if 0 < i {
        lemma_dense_offset_monotone(sizes, i - 1, j - 1);
    }
}

impl<T: Copy, C: Criterion<T>> BaseNeuralNet<T, C> {
    /// Initial weights for the dense layers of a multilayer perceptron over
    /// `layer_sizes`: for each dense layer in turn, as many weights as it has
    /// parameters, each drawn by `sample` from the layer's fan-in, bias
    /// included, and its fan-out. There are no weights to return where
    /// their number does not fit a `usize`.
    pub fn create_weights(layer_sizes: &[usize], sample: impl Fn(usize, usize) -> T) -> (res:
        Option<Vec<T>>)
        requires
            forall|b: int|
                0 <= b < dense_pairs(layer_sizes@) ==> #[trigger] can_draw(layer_sizes@, sample, b),
        ensures
            match res {
                Some(weights) => {
                    &&& weights@.len() == dense_total(layer_sizes@)
                    &&& forall|b: int, j: int|
                        0 <= b < dense_pairs(layer_sizes@) && 0 <= j < dense_count(layer_sizes@, b)
                            ==> #[trigger] drawn_at(weights@, layer_sizes@, sample, b, j)
                },
                None => dense_total(layer_sizes@) > usize::MAX,
            },
    {
        let mut weights: Vec<T> = Vec::new();
        let n = layer_sizes.len();
        if n < 2 {
            return Some(weights);
        }
        let ghost sizes = layer_sizes@;
        let mut i: usize = 0;
        while i < n - 1
            invariant
                2 <= n == sizes.len(),
                sizes == layer_sizes@,
                i <= n - 1,
                weights@.len() == dense_offset(sizes, i as int),
                forall|b: int|
                    0 <= b < dense_pairs(sizes) ==> #[trigger] can_draw(sizes, sample, b),
                forall|b: int, j: int|
                    0 <= b < i && 0 <= j < dense_count(sizes, b) ==> #[trigger] drawn_at(
                        weights@,
                        sizes,
                        sample,
                        b,
                        j,
                    ),
            decreases n - 1 - i,
        {
            let fan_out = layer_sizes[i + 1];
            let ghost before = weights@;
            proof {
                lemma_dense_offset_monotone(sizes, i + 1, n - 1);
            }
            match layer_sizes[i].checked_add(1) {
                None => {
                    if fan_out != 0 {
                        assert(dense_count(sizes, i as int) > usize::MAX) by (nonlinear_arith)
                            requires
                                dense_count(sizes, i as int) == (sizes[i as int] + 1) * fan_out,
                                sizes[i as int] + 1 > usize::MAX,
                                fan_out >= 1,
                        ;
                        return None;
                    }
                    assert(dense_count(sizes, i as int) == 0) by (nonlinear_arith)
                        requires
                            dense_count(sizes, i as int) == (sizes[i as int] + 1) * fan_out,
                            fan_out == 0,
                    ;
                },
                Some(fan_in) => {
                    let count = match fan_in.checked_mul(fan_out) {
                        Some(count) => count,
                        None => {
                            return None;
                        },
                    };
                    let len = weights.len();
                    if count > usize::MAX - len {
                        return None;
                    }
                    assert(can_draw(sizes, sample, i as int));
                    let mut j: usize = 0;
                    while j < count
                        invariant
                            j <= count,
                            len + count <= usize::MAX,
                            i < n - 1,
                            n == sizes.len(),
                            fan_in == sizes[i as int] + 1,
                            fan_out == sizes[i + 1],
                            count == dense_count(sizes, i as int),
                            len == dense_offset(sizes, i as int),
                            weights@.len() == len + j,
                            before.len() == len,
                            forall|p: int| 0 <= p < len ==> weights@[p] == before[p],
                            count > 0 ==> call_requires(sample, (fan_in, fan_out)),
                            forall|q: int|
                                0 <= q < j ==> #[trigger] drawn_at(
                                    weights@,
                                    sizes,
                                    sample,
                                    i as int,
                                    q,
                                ),
                        decreases count - j,
                    {
                        let ghost filled = weights@;
                        let w = sample(fan_in, fan_out);
                        weights.push(w);
                        assert forall|q: int| 0 <= q < j + 1 implies #[trigger] drawn_at(
                            weights@,
                            sizes,
                            sample,
                            i as int,
                            q,
                        ) by {
                            if q < j {
                                assert(drawn_at(filled, sizes, sample, i as int, q));
                            }
                        }
                        j += 1;
                    }
                },
            }
            assert forall|b: int, j: int|
                0 <= b < i + 1 && 0 <= j < dense_count(sizes, b) implies #[trigger] drawn_at(
                weights@,
                sizes,
                sample,
                b,
                j,
            ) by {
                if b < i {
                    lemma_dense_offset_monotone(sizes, b + 1, i as int);
                    lemma_dense_offset_monotone(sizes, 0, b);
                    assert(drawn_at(before, sizes, sample, b, j));
                }
            }
            i += 1;
        }
        Some(weights)
    }

    /// A multilayer perceptron over `layer_sizes`: for each pair of
    /// neighbouring sizes, the dense layer that `linear` builds for them,
    /// followed by the activation layer that `activation` builds. Each layer
    /// gets the parameters it proposes for itself. The first layer that the
    /// network refuses ends the construction.
    pub fn mlp(
        layer_sizes: &[usize],
        criterion: C,
        linear: impl Fn(usize, usize) -> Layer<T>,
        activation: impl Fn() -> Layer<T>,
    ) -> (res: Result<Self, NetError>)
        requires
            forall|i: int|
                0 <= i < dense_pairs(layer_sizes@) ==> #[trigger] can_build(
                    layer_sizes@,
                    linear,
                    activation,
                    i,
                ),
        ensures
            dense_pairs(layer_sizes@) == 0 ==> res is Ok,
            match res {
                Ok(net) => {
                    &&& net.spec_criterion() == criterion
                    &&& net.spec_layers().len() == 2 * dense_pairs(layer_sizes@)
                    &&& forall|i: int|
                        0 <= i < dense_pairs(layer_sizes@) ==> #[trigger] pair_built(
                            net.spec_layers(),
                            layer_sizes@,
                            linear,
                            activation,
                            i,
                        )
                },
                Err(e) => e == NetError::ShapeMismatch || e == NetError::BufferLengthMismatch,
            },
    {
        let mut net = BaseNeuralNet::new(criterion);
        let n = layer_sizes.len();
        if n < 2 {
            return Ok(net);
        }
        let mut i: usize = 0;
        while i < n - 1
            invariant
                2 <= n == layer_sizes@.len(),
                i <= n - 1,
                net.spec_criterion() == criterion,
                net.spec_layers().len() == 2 * i,
                forall|k: int|
                    0 <= k < dense_pairs(layer_sizes@) ==> #[trigger] can_build(
                        layer_sizes@,
                        linear,
                        activation,
                        k,
                    ),
                forall|k: int|
                    0 <= k < i ==> #[trigger] pair_built(
                        net.spec_layers(),
                        layer_sizes@,
                        linear,
                        activation,
                        k,
                    ),
            decreases n - 1 - i,
        {
            let ghost before = net.spec_layers();
            assert(can_build(layer_sizes@, linear, activation, i as int));
            let dense = linear(layer_sizes[i], layer_sizes[i + 1]);
            match net.add_layer(dense) {
                Ok(_) => {},
                Err(e) => {
                    return Err(e);
                },
            }
            let active = activation();
            match net.add_layer(active) {
                Ok(_) => {},
                Err(e) => {
                    return Err(e);
                },
            }
            assert forall|k: int| 0 <= k < i + 1 implies #[trigger] pair_built(
                net.spec_layers(),
                layer_sizes@,
                linear,
                activation,
                k,
            ) by {
                if k < i {
                    assert(pair_built(before, layer_sizes@, linear, activation, k));
                }
            }
            i += 1;
        }
        Ok(net)
    }
}

} // verus!
