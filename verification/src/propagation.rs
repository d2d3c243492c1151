//! What forward and backward propagation compute, as mathematics.
//!
//! The functions here speak of a stack of layers, a parameter vector and
//! matrices by their views. The network's executable functions are proved
//! against them.

use crate::criterion::{CostFunc, Criterion};
use crate::error::NetError;
use crate::layer::{Layer, NetLayer};
use crate::layout::{
    concat_spans, lemma_range_in_bounds, lemma_ranges_partition, offset_of, range_end, range_start,
    span, total_params,
};
use crate::matrix::MatrixView;
use vstd::prelude::*;

verus! {

/// The parameter count of each layer, in layer order.
pub open spec fn param_counts<T>(layers: Seq<Layer<T>>) -> Seq<usize> {
    Seq::new(layers.len(), |i: int| layers[i].spec_num_params())
}

/// The layer's parameter shape holds exactly as many elements as the layer
/// has parameters.
pub open spec fn shape_fits<T>(layer: Layer<T>) -> bool {
    layer.spec_param_shape().0 * layer.spec_param_shape().1 == layer.spec_num_params()
}

/// A stack whose layers all have a shape that fits their count, together
/// with the length of a parameter vector that serves it.
pub open spec fn valid_stack<T>(layers: Seq<Layer<T>>, len: nat) -> bool {
    &&& len == total_params(param_counts(layers))
    &&& forall|i: int| 0 <= i < layers.len() ==> #[trigger] shape_fits(layers[i])
}

/// The parameters of layer `i`, in the layer's shape.
pub open spec fn layer_view<T>(
    layers: Seq<Layer<T>>,
    weights: Seq<T>,
    i: int,
) -> MatrixView<T> {
    MatrixView {
        rows: layers[i].spec_param_shape().0 as nat,
        cols: layers[i].spec_param_shape().1 as nat,
        data: span(param_counts(layers), weights, i),
    }
}

/// The activation trace: entry 0 is the input, entry `k` the output of
/// layer `k - 1` on entry `k - 1`.
pub open spec fn activation<T>(
    layers: Seq<Layer<T>>,
    weights: Seq<T>,
    input: MatrixView<T>,
    k: int,
) -> MatrixView<T>
    decreases k,
{
    if k <= 0 {
        input
    } else {
        layers[k - 1].spec_forward(
            activation(layers, weights, input, k - 1),
            layer_view(layers, weights, k - 1),
        )
    }
}

/// The output of the whole stack: the last entry of the activation trace.
pub open spec fn forward_output<T>(
    layers: Seq<Layer<T>>,
    weights: Seq<T>,
    input: MatrixView<T>,
) -> MatrixView<T> {
    activation(layers, weights, input, layers.len() as int)
}

/// The gradient of the cost with respect to entry `k` of the activation
/// trace, where `seed` is the gradient with respect to the last entry.
pub open spec fn activation_grad<T>(
    layers: Seq<Layer<T>>,
    weights: Seq<T>,
    input: MatrixView<T>,
    seed: MatrixView<T>,
    k: int,
) -> MatrixView<T>
    decreases layers.len() - k,
{
    if k >= layers.len() {
        seed
    } else {
        layers[k].spec_back_input(
            activation_grad(layers, weights, input, seed, k + 1),
            activation(layers, weights, input, k),
            layer_view(layers, weights, k),
        )
    }
}

/// The gradient of the cost with respect to the parameters of layer `k`.
/// It is computed from the same three values as the gradient that layer `k`
/// hands on to the layer before it.
pub open spec fn param_grad<T>(
    layers: Seq<Layer<T>>,
    weights: Seq<T>,
    input: MatrixView<T>,
    seed: MatrixView<T>,
    k: int,
) -> MatrixView<T> {
    layers[k].spec_back_params(
        activation_grad(layers, weights, input, seed, k + 1),
        activation(layers, weights, input, k),
        layer_view(layers, weights, k),
    )
}

/// Every layer's parameter gradient has as many elements as the layer has
/// parameters.
pub open spec fn grads_fit<T>(
    layers: Seq<Layer<T>>,
    weights: Seq<T>,
    input: MatrixView<T>,
    seed: MatrixView<T>,
) -> bool {
    forall|k: int|
        0 <= k < layers.len() ==> (#[trigger] param_grad(
            layers,
            weights,
            input,
            seed,
            k,
        )).data.len() == layers[k].spec_num_params()
}

/// The parameter gradients of the layers from `k` on, one after another.
pub open spec fn gradient_from<T>(
    layers: Seq<Layer<T>>,
    weights: Seq<T>,
    input: MatrixView<T>,
    seed: MatrixView<T>,
    k: int,
) -> Seq<T>
    decreases layers.len() - k,
{
    if k >= layers.len() {
        Seq::empty()
    } else {
        param_grad(layers, weights, input, seed, k).data + gradient_from(
            layers,
            weights,
            input,
            seed,
            k + 1,
        )
    }
}

/// What forward propagation with the parameter vector `weights` returns.
pub open spec fn forward_result<T>(
    layers: Seq<Layer<T>>,
    weights: Seq<T>,
    input: MatrixView<T>,
) -> Result<MatrixView<T>, NetError> {
    if weights.len() != total_params(param_counts(layers)) {
        Err(NetError::BufferLengthMismatch)
    } else {
        Ok(forward_output(layers, weights, input))
    }
}

/// What back-propagation with the parameter vector `weights` returns: the
/// cost of the stack's output against `targets`, and the gradient of that
/// cost with respect to every parameter, laid out as the parameters are.
pub open spec fn grad_result<T: Copy, C: Criterion<T>>(
    layers: Seq<Layer<T>>,
    weights: Seq<T>,
    input: MatrixView<T>,
    targets: MatrixView<T>,
) -> Result<(T, Seq<T>), NetError> {
    let output = forward_output(layers, weights, input);
    let seed = C::Cost::spec_grad_cost(output, targets);
    if weights.len() != total_params(param_counts(layers)) {
        Err(NetError::BufferLengthMismatch)
    } else if !output.same_shape(targets) || !grads_fit(layers, weights, input, seed) {
        Err(NetError::ShapeMismatch)
    } else {
        Ok((C::Cost::spec_cost(output, targets), gradient_from(layers, weights, input, seed, 0)))
    }
}

/// The layers' views tile the parameter vector. In a valid stack every
/// layer's view has the layer's shape and exactly the elements that fill it,
/// namely the layer's own range of the vector. The first range starts at
/// zero, each range ends where the next one starts, no two ranges overlap,
/// and the last one ends at the end of the vector. The views' elements, put
/// together in layer order, are the vector again.
pub proof fn lemma_layer_views_tile<T>(layers: Seq<Layer<T>>, weights: Seq<T>)
    requires
        valid_stack(layers, weights.len()),
    ensures
        forall|i: int|
            0 <= i < layers.len() ==> {
                let view = #[trigger] layer_view(layers, weights, i);
                &&& view.wf()
                &&& view.rows == layers[i].spec_param_shape().0
                &&& view.cols == layers[i].spec_param_shape().1
                &&& view.data.len() == layers[i].spec_num_params()
                &&& view.data == weights.subrange(
                    range_start(param_counts(layers), i),
                    range_end(param_counts(layers), i),
                )
            },
        layers.len() > 0 ==> range_start(param_counts(layers), 0) == 0,
        layers.len() > 0 ==> range_end(param_counts(layers), layers.len() - 1) == weights.len(),
        forall|i: int|
            #![trigger range_end(param_counts(layers), i)]
            0 <= i < layers.len() - 1 ==> range_end(param_counts(layers), i) == range_start(
                param_counts(layers),
                i + 1,
            ),
        forall|i: int, j: int|
            #![trigger range_end(param_counts(layers), i), range_start(param_counts(layers), j)]
            0 <= i < j < layers.len() ==> range_end(param_counts(layers), i) <= range_start(
                param_counts(layers),
                j,
            ),
        concat_spans(param_counts(layers), weights, layers.len() as int) == weights,
{
    lemma_ranges_partition(param_counts(layers), weights);
    assert forall|i: int| 0 <= i < layers.len() implies {
        let view = #[trigger] layer_view(layers, weights, i);
        &&& view.wf()
        &&& view.data.len() == layers[i].spec_num_params()
    } by {
        assert(shape_fits(layers[i]));
        assert(span(param_counts(layers), weights, i).len() == param_counts(layers)[i]);
    }
}

/// Where every layer's gradient fits, the gradients of the layers from `k`
/// on fill the parameter vector from the start of layer `k` to its end.
pub proof fn lemma_gradient_from_len<T>(
    layers: Seq<Layer<T>>,
    weights: Seq<T>,
    input: MatrixView<T>,
    seed: MatrixView<T>,
    k: int,
)
    requires
        0 <= k <= layers.len(),
        grads_fit(layers, weights, input, seed),
    ensures
        gradient_from(layers, weights, input, seed, k).len() == total_params(param_counts(layers))
            - offset_of(param_counts(layers), k),
    decreases layers.len() - k,
{
    if k < layers.len() {
        lemma_gradient_from_len(layers, weights, input, seed, k + 1);
        lemma_range_in_bounds(param_counts(layers), k);
    }
}

/// Forward propagation through no layers is the identity.
pub proof fn lemma_forward_empty_is_identity<T>(weights: Seq<T>, input: MatrixView<T>)
    ensures
        forward_output(Seq::<Layer<T>>::empty(), weights, input) == input,
        weights.len() == 0 ==> forward_result(Seq::<Layer<T>>::empty(), weights, input)
            == Ok::<MatrixView<T>, NetError>(input),
{
}

/// Back-propagation returns one gradient entry for each parameter.
pub proof fn lemma_gradient_len<T: Copy, C: Criterion<T>>(
    layers: Seq<Layer<T>>,
    weights: Seq<T>,
    input: MatrixView<T>,
    targets: MatrixView<T>,
)
    ensures
        grad_result::<T, C>(layers, weights, input, targets) matches Ok(r) ==> r.1.len()
            == weights.len(),
{
    let output = forward_output(layers, weights, input);
    let seed = C::Cost::spec_grad_cost(output, targets);
    if grad_result::<T, C>(layers, weights, input, targets) is Ok {
        lemma_gradient_from_len(layers, weights, input, seed, 0);
    }
}

/// The cost that back-propagation returns is the cost of what forward
/// propagation returns for the same parameters and inputs: the two never
/// drift apart.
pub proof fn lemma_cost_round_trip<T: Copy, C: Criterion<T>>(
    layers: Seq<Layer<T>>,
    weights: Seq<T>,
    input: MatrixView<T>,
    targets: MatrixView<T>,
)
    ensures
        grad_result::<T, C>(layers, weights, input, targets) matches Ok(r) ==> (forward_result(
            layers,
            weights,
            input,
        ) matches Ok(output) && output.same_shape(targets) && r.0 == C::Cost::spec_cost(
            output,
            targets,
        )),
{
}

/// Back-propagation through no layers returns the cost of the input
/// against the targets and an empty gradient.
pub proof fn lemma_grad_empty_stack<T: Copy, C: Criterion<T>>(
    input: MatrixView<T>,
    targets: MatrixView<T>,
)
    requires
        input.same_shape(targets),
    ensures
        grad_result::<T, C>(Seq::<Layer<T>>::empty(), Seq::<T>::empty(), input, targets)
            == Ok::<(T, Seq<T>), NetError>((C::Cost::spec_cost(input, targets), Seq::<T>::empty())),
{
}

} // verus!
