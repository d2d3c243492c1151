//! What the network asks of a layer.

use crate::matrix::{Matrix, MatrixSlice, MatrixView};
use vstd::prelude::*;

verus! {

/// One parameterized transform in the stack.
///
/// A layer owns no parameters. It says how many it needs and in what shape,
/// and on every call it is handed a view of its part of the network's
/// parameter vector, in that shape.
///
/// The count, the shape and the three transforms are functions of their
/// arguments alone: each has a `spec_` companion that names its result, and
/// the network's contracts are stated over those names. The initial
/// parameters are not named, so a layer may draw them at random: their
/// `spec_` companion only says which parameters the layer may propose.
/// Nothing else is claimed of a layer.
///
/// An implementation in ordinary Rust gives the `spec_` functions any body:
/// they are never called when the program runs.
pub trait NetLayer<T> {
    /// The result of `num_params`.
    spec fn spec_num_params(&self) -> usize;

    /// How many parameters the layer takes from the parameter vector.
    fn num_params(&self) -> (n: usize)
        ensures
            n == self.spec_num_params(),
    ;

    /// The result of `param_shape`.
    spec fn spec_param_shape(&self) -> (usize, usize);

    /// The rows and columns in which the layer reads its parameters.
    fn param_shape(&self) -> (shape: (usize, usize))
        ensures
            shape == self.spec_param_shape(),
    ;

    /// Whether `params` is something that `default_params` may return.
    spec fn spec_default_params(&self, params: Vec<T>) -> bool;

    /// Parameters to start from, `num_params()` of them.
    fn default_params(&self) -> (params: Vec<T>)
        ensures
            self.spec_default_params(params),
    ;

    /// The result of `forward`.
    spec fn spec_forward(&self, input: MatrixView<T>, params: MatrixView<T>) -> MatrixView<T>;

    /// The layer's output for `input`.
    fn forward(&self, input: &Matrix<T>, params: MatrixSlice<T>) -> (out: Matrix<T>)
        requires
            params@.rows == self.spec_param_shape().0,
            params@.cols == self.spec_param_shape().1,
        ensures
            out@ == self.spec_forward(input@, params@),
    ;

    /// The result of `back_input`.
    spec fn spec_back_input(
        &self,
        out_grad: MatrixView<T>,
        input: MatrixView<T>,
        params: MatrixView<T>,
    ) -> MatrixView<T>;

    /// The gradient with respect to `input`, given the gradient with respect
    /// to the output that `input` produced.
    fn back_input(&self, out_grad: &Matrix<T>, input: &Matrix<T>, params: MatrixSlice<T>) -> (grad:
        Matrix<T>)
        requires
            params@.rows == self.spec_param_shape().0,
            params@.cols == self.spec_param_shape().1,
        ensures
            grad@ == self.spec_back_input(out_grad@, input@, params@),
    ;

    /// The result of `back_params`.
    spec fn spec_back_params(
        &self,
        out_grad: MatrixView<T>,
        input: MatrixView<T>,
        params: MatrixView<T>,
    ) -> MatrixView<T>;

    /// The gradient with respect to the parameters, given the gradient with
    /// respect to the output that `input` produced.
    fn back_params(&self, out_grad: &Matrix<T>, input: &Matrix<T>, params: MatrixSlice<T>) -> (grad:
        Matrix<T>)
        requires
            params@.rows == self.spec_param_shape().0,
            params@.cols == self.spec_param_shape().1,
        ensures
            grad@ == self.spec_back_params(out_grad@, input@, params@),
    ;
}

/// A layer of any kind, as a stack of layers holds it. It is the layer it
/// holds: each of its functions is that layer's.
#[verifier::reject_recursive_types(T)]
pub struct Layer<T>(pub Box<dyn NetLayer<T>>);

impl<T> NetLayer<T> for Layer<T> {
    open spec fn spec_num_params(&self) -> usize {
        self.0.spec_num_params()
    }

    fn num_params(&self) -> (n: usize) {
        self.0.num_params()
    }

    /// What the layer that is held proposes for itself.
    fn default_params(&self) -> (params: Vec<T>) {
        self.0.default_params()
    }

    open spec fn spec_default_params(&self, params: Vec<T>) -> bool {
        self.0.spec_default_params(params)
    }

    open spec fn spec_param_shape(&self) -> (usize, usize) {
        self.0.spec_param_shape()
    }

    fn param_shape(&self) -> (shape: (usize, usize)) {
        self.0.param_shape()
    }

    open spec fn spec_forward(&self, input: MatrixView<T>, params: MatrixView<T>) -> MatrixView<T> {
        self.0.spec_forward(input, params)
    }

    fn forward(&self, input: &Matrix<T>, params: MatrixSlice<T>) -> (out: Matrix<T>) {
        self.0.forward(input, params)
    }

    open spec fn spec_back_input(
        &self,
        out_grad: MatrixView<T>,
        input: MatrixView<T>,
        params: MatrixView<T>,
    ) -> MatrixView<T> {
        self.0.spec_back_input(out_grad, input, params)
    }

    fn back_input(&self, out_grad: &Matrix<T>, input: &Matrix<T>, params: MatrixSlice<T>) -> (grad:
        Matrix<T>) {
        self.0.back_input(out_grad, input, params)
    }

    open spec fn spec_back_params(
        &self,
        out_grad: MatrixView<T>,
        input: MatrixView<T>,
        params: MatrixView<T>,
    ) -> MatrixView<T> {
        self.0.spec_back_params(out_grad, input, params)
    }

    fn back_params(&self, out_grad: &Matrix<T>, input: &Matrix<T>, params: MatrixSlice<T>) -> (grad:
        Matrix<T>) {
        self.0.back_params(out_grad, input, params)
    }
}

} // verus!
