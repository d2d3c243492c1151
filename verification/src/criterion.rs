//! The criterion: an activation function and a cost function that belong
//! together, and the regularization that goes with them.

use crate::matrix::{Matrix, MatrixSlice, MatrixView};
use vstd::prelude::*;

verus! {

/// The penalty on the size of the weights.
#[derive(Clone, Copy, Debug)]
pub enum Regularization<T> {
    /// The sum of the absolute weights, scaled by the given factor.
    L1(T),
    /// The sum of the squared weights, scaled by the given factor.
    L2(T),
    /// No penalty.
    NoReg,
}

/// A function of one number and its derivative. Each is a function of its
/// argument alone, named by its `spec_` companion.
pub trait ActivationFunc<T> {
    /// The result of `func`.
    spec fn spec_func(x: T) -> T;

    /// The function at `x`.
    fn func(x: T) -> (y: T)
        ensures
            y == Self::spec_func(x),
    ;

    /// The result of `func_grad`.
    spec fn spec_func_grad(x: T) -> T;

    /// The derivative at `x`.
    fn func_grad(x: T) -> (y: T)
        ensures
            y == Self::spec_func_grad(x),
    ;
}

/// A cost of outputs against targets of the same shape, and its gradient
/// with respect to the outputs. Each is a function of its arguments alone,
/// named by its `spec_` companion.
pub trait CostFunc<T> {
    /// The result of `cost`.
    spec fn spec_cost(outputs: MatrixView<T>, targets: MatrixView<T>) -> T;

    /// The cost of `outputs` against `targets`.
    fn cost(outputs: &Matrix<T>, targets: &Matrix<T>) -> (c: T)
        requires
            outputs@.same_shape(targets@),
        ensures
            c == Self::spec_cost(outputs@, targets@),
    ;

    /// The result of `grad_cost`.
    spec fn spec_grad_cost(outputs: MatrixView<T>, targets: MatrixView<T>) -> MatrixView<T>;

    /// The gradient of the cost with respect to `outputs`.
    fn grad_cost(outputs: &Matrix<T>, targets: &Matrix<T>) -> (g: Matrix<T>)
        requires
            outputs@.same_shape(targets@),
        ensures
            g@ == Self::spec_grad_cost(outputs@, targets@),
    ;
}

/// An activation function paired with a cost function.
///
/// The pairing is made once, by the two associated types. The cost and its
/// gradient always come from the same `Cost`, the activation and its
/// derivative from the same `ActFunc`.
pub trait Criterion<T: Copy> {
    type ActFunc: ActivationFunc<T>;

    type Cost: CostFunc<T>;

    /// The activation function applied to every element.
    fn activate(&self, mat: Matrix<T>) -> (out: Matrix<T>)
        ensures
            out@ == mat@.map_values(|x: T| Self::ActFunc::spec_func(x)),
    {
        let f = |x: T| -> (y: T)
            ensures
                y == Self::ActFunc::spec_func(x),
            {
                Self::ActFunc::func(x)
            };
        mat.apply(f)
    }

    /// The derivative of the activation function applied to every element.
    fn grad_activ(&self, mat: Matrix<T>) -> (out: Matrix<T>)
        ensures
            out@ == mat@.map_values(|x: T| Self::ActFunc::spec_func_grad(x)),
    {
        let f = |x: T| -> (y: T)
            ensures
                y == Self::ActFunc::spec_func_grad(x),
            {
                Self::ActFunc::func_grad(x)
            };
        mat.apply(f)
    }

    /// The cost of `outputs` against `targets`.
    fn cost(&self, outputs: &Matrix<T>, targets: &Matrix<T>) -> (c: T)
        requires
            outputs@.same_shape(targets@),
        ensures
            c == Self::Cost::spec_cost(outputs@, targets@),
    {
        Self::Cost::cost(outputs, targets)
    }

    /// The gradient of the cost with respect to `outputs`.
    fn cost_grad(&self, outputs: &Matrix<T>, targets: &Matrix<T>) -> (g: Matrix<T>)
        requires
            outputs@.same_shape(targets@),
        ensures
            g@ == Self::Cost::spec_grad_cost(outputs@, targets@),
    {
        Self::Cost::grad_cost(outputs, targets)
    }

    /// The result of `regularization`.
    spec fn spec_regularization(&self) -> Regularization<T>;

    /// The regularization of this criterion.
    fn regularization(&self) -> (r: Regularization<T>)
        ensures
            r == self.spec_regularization(),
    ;

    /// Whether the criterion has a regularization.
    fn is_regularized(&self) -> (b: bool)
        ensures
            b == !(self.spec_regularization() is NoReg),
    {
        match self.regularization() {
            Regularization::NoReg => false,
            _ => true,
        }
    }

    /// The result of `reg_cost`.
    spec fn spec_reg_cost(&self, reg_weights: MatrixView<T>) -> T;

    /// The penalty that the regularization puts on `reg_weights`.
    ///
    /// The network does not add it to the cost it computes: a caller who
    /// wants it adds it, over the weights it wants penalized.
    fn reg_cost(&self, reg_weights: MatrixSlice<T>) -> (c: T)
        ensures
            c == self.spec_reg_cost(reg_weights@),
    ;

    /// The result of `reg_cost_grad`.
    spec fn spec_reg_cost_grad(&self, reg_weights: MatrixView<T>) -> MatrixView<T>;

    /// The gradient of the penalty with respect to `reg_weights`.
    fn reg_cost_grad(&self, reg_weights: MatrixSlice<T>) -> (g: Matrix<T>)
        ensures
            g@ == self.spec_reg_cost_grad(reg_weights@),
    ;
}

} // verus!
