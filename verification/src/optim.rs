//! The boundary between a model and the algorithm that optimizes it.

use crate::error::NetError;
use vstd::prelude::*;

verus! {

/// A model whose cost and gradient can be asked for at any candidate
/// parameter vector. This is all an optimizer gets to know of a model.
pub trait Optimizable<T> {
    type Inputs;

    type Targets;

    /// The cost at `params` and its gradient with respect to `params`.
    fn compute_grad(&self, params: &[T], inputs: &Self::Inputs, targets: &Self::Targets) -> Result<
        (T, Vec<T>),
        NetError,
    >;
}

/// An algorithm that looks for parameters of low cost. How it steps, and
/// when it stops, is its own affair.
pub trait OptimAlgorithm<T, M: Optimizable<T>> {
    /// Parameters to replace `start` by.
    fn optimize(&self, model: &M, start: &[T], inputs: &M::Inputs, targets: &M::Targets) -> Vec<T>;
}

/// `result` is a parameter vector that `alg` may return where it is called
/// for `model` with the start `start`, `inputs` and `targets`. An algorithm
/// may step at random, so there may be more than one.
pub open spec fn optimized<T, M: Optimizable<T>, A: OptimAlgorithm<T, M>>(
    alg: A,
    model: M,
    start: Seq<T>,
    inputs: M::Inputs,
    targets: M::Targets,
    result: Seq<T>,
) -> bool {
    exists|from: &[T], to: Vec<T>|
        from@ == start && to@ == result && #[trigger] call_ensures(
            A::optimize,
            (&alg, &model, from, &inputs, &targets),
            to,
        )
}

/// A model that learns from inputs with known targets.
pub trait SupModel<I, O> {
    /// The model's output for `inputs`.
    fn predict(&self, inputs: &I) -> O;

    /// Fits the model to `inputs` and `targets`.
    fn train(&mut self, inputs: &I, targets: &O) -> Result<(), NetError>;
}

} // verus!
