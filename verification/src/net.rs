//! The network: a stack of layers over one flat parameter vector, with
//! forward propagation and back-propagation of gradients.

use crate::criterion::{CostFunc, Criterion};
use crate::error::NetError;
use crate::init::{can_build, dense_pairs, pair_built};
use crate::layer::{Layer, NetLayer};
use crate::layout::{lemma_range_in_bounds, lemma_total_push, offset_of, total_params};
use crate::matrix::{Matrix, MatrixSlice, MatrixView};
use crate::optim::{optimized, OptimAlgorithm, Optimizable, SupModel};
use crate::propagation::{
    activation, activation_grad, forward_output, forward_result, grad_result, gradient_from,
    grads_fit, layer_view, param_counts, param_grad, shape_fits, valid_stack,
};
use vstd::pervasive::unreached;
use vstd::prelude::*;
use vstd::slice::{slice_subrange, slice_to_vec};

verus! {

/// Writes `src` over the elements of `dst` from position `start` on.
fn copy_into<T: Copy>(dst: &mut Vec<T>, start: usize, src: &[T])
    requires
        start + src@.len() <= old(dst)@.len(),
    ensures
        final(dst)@ == old(dst)@.subrange(0, start as int) + src@ + old(dst)@.subrange(
            start + src@.len(),
            old(dst)@.len() as int,
        ),
{
    let n = src.len();
    let len = dst.len();
    let mut j: usize = 0;
    while j < n
        invariant
            j <= n,
            n == src@.len(),
            dst@.len() == len,
            len == old(dst)@.len(),
            start + n <= dst@.len(),
            forall|p: int| 0 <= p < start ==> dst@[p] == old(dst)@[p],
            forall|p: int| start <= p < start + j ==> dst@[p] == src@[p - start],
            forall|p: int| start + j <= p < dst@.len() ==> dst@[p] == old(dst)@[p],
        decreases n - j,
    {
        dst[start + j] = src[j];
        j += 1;
    }
}

/// The layers and the parameters they share.
#[verifier::reject_recursive_types(T)]
struct LayerStack<T> {
    layers: Vec<Layer<T>>,
    weights: Vec<T>,
}

/// The counts of a stack with one more layer are the counts of the stack
/// with one more count.
proof fn lemma_counts_push<T>(layers: Seq<Layer<T>>, layer: Layer<T>)
    ensures
        param_counts(layers.push(layer)) == param_counts(layers).push(layer.spec_num_params()),
{
}

/// A stack of layers that share one parameter vector, and the criterion by
/// which the stack's output is scored.
///
/// The parameter vector is always exactly as long as the layers' parameter
/// counts add up to, and every layer's parameter shape holds exactly its
/// parameter count: a layer or a vector that would break this is refused.
#[verifier::reject_recursive_types(T)]
pub struct BaseNeuralNet<T: Copy, C: Criterion<T>> {
    stack: LayerStack<T>,
    criterion: C,
}

impl<T: Copy, C: Criterion<T>> BaseNeuralNet<T, C> {
    #[verifier::type_invariant]
    spec fn well_formed(self) -> bool {
        valid_stack(self.stack.layers@, self.stack.weights@.len())
    }

    /// The layers, first to last.
    pub closed spec fn spec_layers(&self) -> Seq<Layer<T>> {
        self.stack.layers@
    }

    /// The network's own parameter vector.
    pub closed spec fn spec_weights(&self) -> Seq<T> {
        self.stack.weights@
    }

    /// The criterion by which the output is scored.
    pub closed spec fn spec_criterion(&self) -> C {
        self.criterion
    }

    /// A network without layers.
    pub fn new(criterion: C) -> (net: Self)
        ensures
            net.spec_layers() == Seq::<Layer<T>>::empty(),
            net.spec_weights() == Seq::<T>::empty(),
            net.spec_criterion() == criterion,
    {
        BaseNeuralNet { stack: LayerStack { layers: Vec::new(), weights: Vec::new() }, criterion }
    }

    /// The number of layers.
    pub fn num_layers(&self) -> (n: usize)
        ensures
            n == self.spec_layers().len(),
    {
        self.stack.layers.len()
    }

    /// The network's own parameters, layer after layer.
    pub fn weights(&self) -> (w: &[T])
        ensures
            w@ == self.spec_weights(),
            valid_stack(self.spec_layers(), w@.len()),
    {
        proof {
            use_type_invariant(self);
        }
        self.stack.weights.as_slice()
    }

    /// The criterion by which the output is scored.
    pub fn criterion(&self) -> (c: &C)
        ensures
            *c == self.spec_criterion(),
    {
        &self.criterion
    }

    /// Adds `layer` at the end of the stack, with `params` as its
    /// parameters. A layer whose shape does not hold its parameter count is
    /// refused, and so are parameters that are not as many as the layer
    /// takes or that the vector cannot hold.
    pub fn add_layer_with_params(&mut self, layer: Layer<T>, params: Vec<T>) -> (res:
        Result<(), NetError>)
        ensures
            final(self).spec_criterion() == old(self).spec_criterion(),
            match res {
                Ok(_) => {
                    &&& shape_fits(layer)
                    &&& params@.len() == layer.spec_num_params()
                    &&& final(self).spec_layers() == old(self).spec_layers().push(layer)
                    &&& final(self).spec_weights() == old(self).spec_weights() + params@
                },
                Err(e) => {
                    &&& final(self).spec_layers() == old(self).spec_layers()
                    &&& final(self).spec_weights() == old(self).spec_weights()
                    &&& if !shape_fits(layer) {
                        e == NetError::ShapeMismatch
                    } else {
                        &&& e == NetError::BufferLengthMismatch
                        &&& (params@.len() != layer.spec_num_params()
                            || old(self).spec_weights().len() + params@.len() > usize::MAX)
                    }
                },
            },
    {
        proof {
            use_type_invariant(&*self);
        }
        let count = layer.num_params();
        let shape = layer.param_shape();
        match shape.0.checked_mul(shape.1) {
            Some(n) => {
                if n != count {
                    return Err(NetError::ShapeMismatch);
                }
            },
            None => {
                return Err(NetError::ShapeMismatch);
            },
        }
        if params.len() != count {
            return Err(NetError::BufferLengthMismatch);
        }
        match self.stack.weights.len().checked_add(count) {
            Some(_) => {},
            None => {
                return Err(NetError::BufferLengthMismatch);
            },
        }
        proof {
            lemma_counts_push(self.stack.layers@, layer);
            lemma_total_push(param_counts(self.stack.layers@), count);
        }
        // The network is empty while the layer is being added, and so stays
        // well-formed at every step.
        let mut stack = LayerStack { layers: Vec::new(), weights: Vec::new() };
        core::mem::swap(&mut self.stack, &mut stack);
        let LayerStack { layers, weights } = stack;
        let mut layers = layers;
        let mut weights = weights;
        let mut params = params;
        weights.append(&mut params);
        layers.push(layer);
        let mut stack = LayerStack { layers, weights };
        core::mem::swap(&mut self.stack, &mut stack);
        Ok(())
    }

    /// Adds `layer` at the end of the stack, with the parameters that the
    /// layer proposes for itself.
    pub fn add_layer(&mut self, layer: Layer<T>) -> (res: Result<(), NetError>)
        ensures
            final(self).spec_criterion() == old(self).spec_criterion(),
            match res {
                Ok(_) => {
                    &&& shape_fits(layer)
                    &&& final(self).spec_layers() == old(self).spec_layers().push(layer)
                    &&& final(self).spec_weights().len() == old(self).spec_weights().len()
                        + layer.spec_num_params()
                    &&& final(self).spec_weights().subrange(
                        0,
                        old(self).spec_weights().len() as int,
                    ) == old(self).spec_weights()
                },
                Err(e) => {
                    &&& final(self).spec_layers() == old(self).spec_layers()
                    &&& final(self).spec_weights() == old(self).spec_weights()
                    &&& (e == NetError::ShapeMismatch <==> !shape_fits(layer))
                    &&& (e == NetError::ShapeMismatch || e == NetError::BufferLengthMismatch)
                },
            },
    {
        let params = layer.default_params();
        self.add_layer_with_params(layer, params)
    }

    /// Replaces the network's parameters by `weights`, which have to be as
    /// many as before.
    pub fn set_weights(&mut self, weights: Vec<T>) -> (res: Result<(), NetError>)
        ensures
            final(self).spec_layers() == old(self).spec_layers(),
            final(self).spec_criterion() == old(self).spec_criterion(),
            match res {
                Ok(_) => {
                    &&& weights@.len() == old(self).spec_weights().len()
                    &&& final(self).spec_weights() == weights@
                },
                Err(e) => {
                    &&& weights@.len() != old(self).spec_weights().len()
                    &&& final(self).spec_weights() == old(self).spec_weights()
                    &&& e == NetError::BufferLengthMismatch
                },
            },
    {
        proof {
            use_type_invariant(&*self);
        }
        if weights.len() != self.stack.weights.len() {
            return Err(NetError::BufferLengthMismatch);
        }
        self.stack.weights = weights;
        Ok(())
    }

    /// The view of layer `i` in `weights`, where `index` is the offset of
    /// that layer; and the offset of the layer behind it.
    fn view_at<'a>(&self, weights: &'a [T], i: usize, index: usize) -> (res: (
        MatrixSlice<'a, T>,
        usize,
    ))
        requires
            i < self.stack.layers@.len(),
            weights@.len() == total_params(param_counts(self.stack.layers@)),
            index == offset_of(param_counts(self.stack.layers@), i as int),
        ensures
            res.0@ == layer_view(self.stack.layers@, weights@, i as int),
            res.1 == offset_of(param_counts(self.stack.layers@), i + 1),
            res.1 == index + self.stack.layers@[i as int].spec_num_params(),
    {
        proof {
            use_type_invariant(self);
            lemma_range_in_bounds(param_counts(self.stack.layers@), i as int);
            assert(shape_fits(self.stack.layers@[i as int]));
            assert(weights@.len() == weights.len());
        }
        let count = self.stack.layers[i].num_params();
        let shape = self.stack.layers[i].param_shape();
        let end = index + count;
        let part = slice_subrange(weights, index, end);
        match MatrixSlice::from_slice(part, shape.0, shape.1) {
            Ok(view) => (view, end),
            Err(_) => unreached(),
        }
    }

    /// The offset of layer `idx` in the parameter vector.
    fn offset(&self, idx: usize) -> (start: usize)
        requires
            idx <= self.stack.layers@.len(),
        ensures
            start == offset_of(param_counts(self.stack.layers@), idx as int),
    {
        proof {
            use_type_invariant(self);
        }
        let mut start: usize = 0;
        let mut i: usize = 0;
        while i < idx
            invariant
                i <= idx <= self.stack.layers@.len(),
                start == offset_of(param_counts(self.stack.layers@), i as int),
                total_params(param_counts(self.stack.layers@)) == self.stack.weights@.len(),
            decreases idx - i,
        {
            proof {
                lemma_range_in_bounds(param_counts(self.stack.layers@), i as int);
                assert(self.stack.weights@.len() == self.stack.weights.len());
            }
            start += self.stack.layers[i].num_params();
            i += 1;
        }
        start
    }

    /// The parameters of layer `idx` in `weights`, in that layer's shape.
    pub fn get_layer_weights<'a>(&self, weights: &'a [T], idx: usize) -> (res: Result<
        MatrixSlice<'a, T>,
        NetError,
    >)
        ensures
            match res {
                Ok(view) => {
                    &&& idx < self.spec_layers().len()
                    &&& weights@.len() == total_params(param_counts(self.spec_layers()))
                    &&& view@ == layer_view(self.spec_layers(), weights@, idx as int)
                },
                Err(e) => if idx >= self.spec_layers().len() {
                    e == NetError::IndexOutOfRange
                } else {
                    e == NetError::BufferLengthMismatch && weights@.len() != total_params(
                        param_counts(self.spec_layers()),
                    )
                },
            },
    {
        proof {
            use_type_invariant(self);
        }
        if idx >= self.stack.layers.len() {
            return Err(NetError::IndexOutOfRange);
        }
        if weights.len() != self.stack.weights.len() {
            return Err(NetError::BufferLengthMismatch);
        }
        let start = self.offset(idx);
        let (view, _) = self.view_at(weights, idx, start);
        Ok(view)
    }

    /// The parameters of layer `idx` in the network's own parameter vector.
    pub fn get_net_weights(&self, idx: usize) -> (res: Result<MatrixSlice<'_, T>, NetError>)
        ensures
            match res {
                Ok(view) => idx < self.spec_layers().len() && view@ == layer_view(
                    self.spec_layers(),
                    self.spec_weights(),
                    idx as int,
                ),
                Err(e) => idx >= self.spec_layers().len() && e == NetError::IndexOutOfRange,
            },
    {
        proof {
            use_type_invariant(self);
        }
        self.get_layer_weights(self.stack.weights.as_slice(), idx)
    }

    /// The parameters of layer `idx` in `weights` without their first row,
    /// which is where a layer with a bias keeps the bias weights.
    pub fn get_non_bias_weights<'a>(&self, weights: &'a [T], idx: usize) -> (res: Result<
        MatrixSlice<'a, T>,
        NetError,
    >)
        ensures
            match res {
                Ok(view) => {
                    &&& idx < self.spec_layers().len()
                    &&& weights@.len() == total_params(param_counts(self.spec_layers()))
                    &&& self.spec_layers()[idx as int].spec_param_shape().0 > 0
                    &&& view@ == layer_view(
                        self.spec_layers(),
                        weights@,
                        idx as int,
                    ).without_first_row()
                },
                Err(e) => if idx >= self.spec_layers().len() {
                    e == NetError::IndexOutOfRange
                } else if weights@.len() != total_params(param_counts(self.spec_layers())) {
                    e == NetError::BufferLengthMismatch
                } else {
                    e == NetError::EmptyView && self.spec_layers()[idx as int].spec_param_shape().0
                        == 0
                },
            },
    {
        match self.get_layer_weights(weights, idx) {
            Ok(view) => view.without_first_row(),
            Err(e) => Err(e),
        }
    }

    /// Forward propagation with `weights` in place of the network's own
    /// parameters: the output of the last layer, where each layer is fed the
    /// output of the layer before it, and the first layer the inputs.
    pub fn forward(&self, weights: &[T], inputs: &Matrix<T>) -> (res: Result<Matrix<T>, NetError>)
        ensures
            match res {
                Ok(out) => forward_result(self.spec_layers(), weights@, inputs@) == Ok::<
                    _,
                    NetError,
                >(out@),
                Err(e) => forward_result(self.spec_layers(), weights@, inputs@) == Err::<
                    MatrixView<T>,
                    _,
                >(e),
            },
    {
        proof {
            use_type_invariant(self);
        }
        if weights.len() != self.stack.weights.len() {
            return Err(NetError::BufferLengthMismatch);
        }
        let n = self.stack.layers.len();
        if n == 0 {
            return Ok(inputs.clone());
        }
        let (first, second) = self.view_at(weights, 0, 0);
        let mut outputs = self.stack.layers[0].forward(inputs, first);
        assert(activation(self.stack.layers@, weights@, inputs@, 0) == inputs@);
        let mut index = second;
        let mut i: usize = 1;
        while i < n
            invariant
                1 <= i <= n,
                n == self.stack.layers@.len(),
                weights@.len() == total_params(param_counts(self.stack.layers@)),
                index == offset_of(param_counts(self.stack.layers@), i as int),
                outputs@ == activation(self.stack.layers@, weights@, inputs@, i as int),
            decreases n - i,
        {
            let (view, next) = self.view_at(weights, i, index);
            outputs = self.stack.layers[i].forward(&outputs, view);
            index = next;
            i += 1;
        }
        Ok(outputs)
    }

    /// Forward propagation with the network's own parameters. A network
    /// without layers returns the inputs as they are.
    pub fn forward_prop(&self, inputs: &Matrix<T>) -> (out: Matrix<T>)
        ensures
            out@ == forward_output(self.spec_layers(), self.spec_weights(), inputs@),
            self.spec_layers().len() == 0 ==> out@ == inputs@,
    {
        proof {
            use_type_invariant(self);
        }
        match self.forward(self.stack.weights.as_slice(), inputs) {
            Ok(out) => out,
            Err(_) => unreached(),
        }
    }

    /// Back-propagation with `weights` in place of the network's own
    /// parameters: the cost of the network's output for `inputs` against
    /// `targets`, and the gradient of that cost with respect to every
    /// parameter, in the order of the parameters.
    ///
    /// The activation trace of the forward pass lives for this call only.
    pub fn compute_grad(&self, weights: &[T], inputs: &Matrix<T>, targets: &Matrix<T>) -> (res:
        Result<(T, Vec<T>), NetError>)
        ensures
            match res {
                Ok((cost, gradient)) => grad_result::<T, C>(
                    self.spec_layers(),
                    weights@,
                    inputs@,
                    targets@,
                ) == Ok::<_, NetError>((cost, gradient@)) && gradient@.len() == weights@.len(),
                Err(e) => grad_result::<T, C>(self.spec_layers(), weights@, inputs@, targets@)
                    == Err::<(T, Seq<T>), _>(e),
            },
    {
        proof {
            use_type_invariant(self);
        }
        if weights.len() != self.stack.weights.len() {
            return Err(NetError::BufferLengthMismatch);
        }
        let n = self.stack.layers.len();
        let ghost counts = param_counts(self.stack.layers@);

        // The forward pass. Entry `j` of `outputs` is the output of layer `j`;
        // the input of layer 0 is `inputs` itself.
        let mut outputs: Vec<Matrix<T>> = Vec::with_capacity(n);
        let mut index: usize = 0;
        let mut i: usize = 0;
        while i < n
            invariant
                i <= n,
                n == self.stack.layers@.len(),
                counts == param_counts(self.stack.layers@),
                weights@.len() == total_params(counts),
                index == offset_of(counts, i as int),
                outputs@.len() == i,
                forall|j: int|
                    0 <= j < i ==> (#[trigger] outputs@[j])@ == activation(
                        self.stack.layers@,
                        weights@,
                        inputs@,
                        j + 1,
                    ),
            decreases n - i,
        {
            let (view, next) = self.view_at(weights, i, index);
            assert(activation(self.stack.layers@, weights@, inputs@, 0) == inputs@);
            let out = if i == 0 {
                self.stack.layers[i].forward(inputs, view)
            } else {
                self.stack.layers[i].forward(&outputs[i - 1], view)
            };
            outputs.push(out);
            index = next;
            i += 1;
        }
        let output: &Matrix<T> = if n == 0 {
            inputs
        } else {
            &outputs[n - 1]
        };
        if !output.same_shape(targets) {
            return Err(NetError::ShapeMismatch);
        }
        // The backward pass, from the last layer to the first.

        let mut out_grad = self.criterion.cost_grad(output, targets);
        let ghost seed = out_grad@;
        let mut gradient = slice_to_vec(weights);
        let mut k: usize = n;
        while k > 0
            invariant
                k <= n,
                n == self.stack.layers@.len(),
                counts == param_counts(self.stack.layers@),
                weights@.len() == total_params(counts),
                index == offset_of(counts, k as int),
                outputs@.len() == n,
                forall|j: int|
                    0 <= j < n ==> (#[trigger] outputs@[j])@ == activation(
                        self.stack.layers@,
                        weights@,
                        inputs@,
                        j + 1,
                    ),
                forward_output(self.stack.layers@, weights@, inputs@).same_shape(targets@),
                seed == C::Cost::spec_grad_cost(
                    forward_output(self.stack.layers@, weights@, inputs@),
                    targets@,
                ),
                out_grad@ == activation_grad(self.stack.layers@, weights@, inputs@, seed, k as int),
                gradient@.len() == weights@.len(),
                gradient@.subrange(index as int, weights@.len() as int) == gradient_from(
                    self.stack.layers@,
                    weights@,
                    inputs@,
                    seed,
                    k as int,
                ),
                forall|j: int|
                    k <= j < n ==> (#[trigger] param_grad(
                        self.stack.layers@,
                        weights@,
                        inputs@,
                        seed,
                        j,
                    )).data.len() == self.stack.layers@[j].spec_num_params(),
            decreases k,
        {
            let i = k - 1;
            proof {
                lemma_range_in_bounds(counts, i as int);
            }
            let count = self.stack.layers[i].num_params();
            let start = index - count;
            let (view, _) = self.view_at(weights, i, start);
            let input: &Matrix<T> = if i == 0 {
                inputs
            } else {
                &outputs[i - 1]
            };
            let param_gradient = self.stack.layers[i].back_params(&out_grad, input, view);
            let input_gradient = self.stack.layers[i].back_input(&out_grad, input, view);
            assert(param_gradient@ == param_grad(
                self.stack.layers@,
                weights@,
                inputs@,
                seed,
                i as int,
            ));
            let data = param_gradient.data();
            if data.len() != count {
                return Err(NetError::ShapeMismatch);
            }
            let ghost before = gradient@;
            copy_into(&mut gradient, start, data);
            out_grad = input_gradient;
            index = start;
            k = i;
        }
        assert(gradient@ =~= gradient@.subrange(0, weights@.len() as int));
        let cost = self.criterion.cost(output, targets);
        Ok((cost, gradient))
    }
}

/// The network is optimized through its cost and gradient at candidate
/// parameters. Its own parameters are not touched by that.
impl<T: Copy, C: Criterion<T>> Optimizable<T> for BaseNeuralNet<T, C> {
    type Inputs = Matrix<T>;

    type Targets = Matrix<T>;

    fn compute_grad(&self, params: &[T], inputs: &Matrix<T>, targets: &Matrix<T>) -> (res: Result<
        (T, Vec<T>),
        NetError,
    >)
        ensures
            match res {
                Ok((cost, gradient)) => grad_result::<T, C>(
                    self.spec_layers(),
                    params@,
                    inputs@,
                    targets@,
                ) == Ok::<_, NetError>((cost, gradient@)) && gradient@.len() == params@.len(),
                Err(e) => grad_result::<T, C>(self.spec_layers(), params@, inputs@, targets@)
                    == Err::<(T, Seq<T>), _>(e),
            },
    {
        BaseNeuralNet::compute_grad(self, params, inputs, targets)
    }
}

/// A neural network: a stack of layers with its criterion, and the
/// algorithm that trains it.
#[verifier::reject_recursive_types(T)]
pub struct NeuralNet<T: Copy, C: Criterion<T>, A: OptimAlgorithm<T, BaseNeuralNet<T, C>>> {
    base: BaseNeuralNet<T, C>,
    alg: A,
}

impl<T: Copy, C: Criterion<T>, A: OptimAlgorithm<T, BaseNeuralNet<T, C>>> NeuralNet<T, C, A> {
    /// The layers, first to last.
    pub closed spec fn spec_layers(&self) -> Seq<Layer<T>> {
        self.base.spec_layers()
    }

    /// The network's parameter vector.
    pub closed spec fn spec_weights(&self) -> Seq<T> {
        self.base.spec_weights()
    }

    /// The criterion by which the output is scored.
    pub closed spec fn spec_criterion(&self) -> C {
        self.base.spec_criterion()
    }

    /// The algorithm that trains the network.
    pub closed spec fn spec_alg(&self) -> A {
        self.alg
    }

    /// A network without layers.
    pub fn new(criterion: C, alg: A) -> (net: Self)
        ensures
            net.spec_layers() == Seq::<Layer<T>>::empty(),
            net.spec_weights() == Seq::<T>::empty(),
            net.spec_criterion() == criterion,
            net.spec_alg() == alg,
    {
        NeuralNet { base: BaseNeuralNet::new(criterion), alg }
    }

    /// A multilayer perceptron over `layer_sizes`: for each pair of
    /// neighbouring sizes, the dense layer that `linear` builds for them,
    /// followed by the activation layer that `activation` builds.
    pub fn mlp(
        layer_sizes: &[usize],
        criterion: C,
        alg: A,
        linear: impl Fn(usize, usize) -> Layer<T>,
        activation: impl Fn() -> Layer<T>,
    ) -> (res: Result<Self, NetError>)
        requires
            forall|i: int|
                0 <= i < dense_pairs(layer_sizes@) ==> #[trigger] can_build(
                    layer_sizes@,
                    linear,
                    activation,
                    i,
                ),
        ensures
            dense_pairs(layer_sizes@) == 0 ==> res is Ok,
            match res {
                Ok(net) => {
                    &&& net.spec_criterion() == criterion
                    &&& net.spec_alg() == alg
                    &&& net.spec_layers().len() == 2 * dense_pairs(layer_sizes@)
                    &&& forall|i: int|
                        0 <= i < dense_pairs(layer_sizes@) ==> #[trigger] pair_built(
                            net.spec_layers(),
                            layer_sizes@,
                            linear,
                            activation,
                            i,
                        )
                },
                Err(e) => e == NetError::ShapeMismatch || e == NetError::BufferLengthMismatch,
            },
    {
        match BaseNeuralNet::mlp(layer_sizes, criterion, linear, activation) {
            Ok(base) => Ok(NeuralNet { base, alg }),
            Err(e) => Err(e),
        }
    }

    /// Adds `layer` at the end of the network, with the parameters that the
    /// layer proposes for itself.
    pub fn add_layer(&mut self, layer: Layer<T>) -> (res: Result<(), NetError>)
        ensures
            final(self).spec_criterion() == old(self).spec_criterion(),
            final(self).spec_alg() == old(self).spec_alg(),
            match res {
                Ok(_) => {
                    &&& shape_fits(layer)
                    &&& final(self).spec_layers() == old(self).spec_layers().push(layer)
                    &&& final(self).spec_weights().len() == old(self).spec_weights().len()
                        + layer.spec_num_params()
                    &&& final(self).spec_weights().subrange(
                        0,
                        old(self).spec_weights().len() as int,
                    ) == old(self).spec_weights()
                },
                Err(e) => {
                    &&& final(self).spec_layers() == old(self).spec_layers()
                    &&& final(self).spec_weights() == old(self).spec_weights()
                    &&& (e == NetError::ShapeMismatch <==> !shape_fits(layer))
                    &&& (e == NetError::ShapeMismatch || e == NetError::BufferLengthMismatch)
                },
            },
    {
        self.base.add_layer(layer)
    }

    /// The parameters of layer `idx`, in that layer's shape.
    pub fn get_net_weights(&self, idx: usize) -> (res: Result<MatrixSlice<'_, T>, NetError>)
        ensures
            match res {
                Ok(view) => idx < self.spec_layers().len() && view@ == layer_view(
                    self.spec_layers(),
                    self.spec_weights(),
                    idx as int,
                ),
                Err(e) => idx >= self.spec_layers().len() && e == NetError::IndexOutOfRange,
            },
    {
        self.base.get_net_weights(idx)
    }

    /// Takes `weights`, as an optimizer returned them, for the network's
    /// parameters. They have to be as many as the network has.
    pub fn install_weights(&mut self, weights: Vec<T>) -> (res: Result<(), NetError>)
        ensures
            final(self).spec_layers() == old(self).spec_layers(),
            final(self).spec_criterion() == old(self).spec_criterion(),
            final(self).spec_alg() == old(self).spec_alg(),
            match res {
                Ok(_) => {
                    &&& weights@.len() == old(self).spec_weights().len()
                    &&& final(self).spec_weights() == weights@
                },
                Err(e) => {
                    &&& weights@.len() != old(self).spec_weights().len()
                    &&& final(self).spec_weights() == old(self).spec_weights()
                    &&& e == NetError::BufferLengthMismatch
                },
            },
    {
        self.base.set_weights(weights)
    }
}

/// Prediction is forward propagation; training hands the network to its
/// algorithm and takes the parameters that come back.
impl<T: Copy, C: Criterion<T>, A: OptimAlgorithm<T, BaseNeuralNet<T, C>>> SupModel<
    Matrix<T>,
    Matrix<T>,
> for NeuralNet<T, C, A> {
    /// The network's output for `inputs`.
    fn predict(&self, inputs: &Matrix<T>) -> (out: Matrix<T>)
        ensures
            out@ == forward_output(self.spec_layers(), self.spec_weights(), inputs@),
            self.spec_layers().len() == 0 ==> out@ == inputs@,
    {
        self.base.forward_prop(inputs)
    }

    /// Calls the algorithm once, with the network's stack as the model and
    /// the network's own parameters as the start, and takes the parameters
    /// it returns. Parameters of another length are refused; the layers stay.
    fn train(&mut self, inputs: &Matrix<T>, targets: &Matrix<T>) -> (res: Result<(), NetError>)
        ensures
            final(self).spec_layers() == old(self).spec_layers(),
            final(self).spec_criterion() == old(self).spec_criterion(),
            final(self).spec_alg() == old(self).spec_alg(),
            final(self).spec_weights().len() == old(self).spec_weights().len(),
            match res {
                Ok(_) => optimized(
                    old(self).spec_alg(),
                    old(self).spec_base(),
                    old(self).spec_weights(),
                    *inputs,
                    *targets,
                    final(self).spec_weights(),
                ),
                Err(e) => {
                    &&& e == NetError::BufferLengthMismatch
                    &&& final(self).spec_weights() == old(self).spec_weights()
                    &&& exists|refused: Seq<T>|
                        refused.len() != old(self).spec_weights().len() && #[trigger] optimized(
                            old(self).spec_alg(),
                            old(self).spec_base(),
                            old(self).spec_weights(),
                            *inputs,
                            *targets,
                            refused,
                        )
                },
            },
    {
        let start = self.base.weights();
        let optimal = self.alg.optimize(&self.base, start, inputs, targets);
        let ghost returned = optimal@;
        proof {
            assert(optimized(
                old(self).spec_alg(),
                old(self).spec_base(),
                old(self).spec_weights(),
                *inputs,
                *targets,
                returned,
            ));
        }
        self.install_weights(optimal)
    }
}

impl<T: Copy, C: Criterion<T>, A: OptimAlgorithm<T, BaseNeuralNet<T, C>>> NeuralNet<T, C, A> {
    /// The stack of layers with its parameters and its criterion: what the
    /// algorithm is handed as the model.
    pub closed spec fn spec_base(&self) -> BaseNeuralNet<T, C> {
        self.base
    }
}

} // verus!
