//! Matrices, views and the layout of the layers' parameters in one vector.

use neuralnet::{
    ActivationFunc, BaseNeuralNet, CostFunc, Criterion, Layer, Matrix, MatrixSlice, MatrixView,
    NetError, NetLayer, Regularization,
};
use rand::distributions::{IndependentSample, Range};

/// A layer that only declares a parameter count and a shape, and proposes
/// the given parameters for itself. It hands its input on unchanged.
struct Shaped {
    count: usize,
    shape: (usize, usize),
    start: Vec<f64>,
}

fn shaped(count: usize, shape: (usize, usize), start: Vec<f64>) -> Layer<f64> {
    Layer(Box::new(Shaped { count, shape, start }))
}

fn block(rows: usize, cols: usize, first: usize) -> Layer<f64> {
    let start = (first..first + rows * cols).map(|i| i as f64).collect();
    shaped(rows * cols, (rows, cols), start)
}

impl NetLayer<f64> for Shaped {
    fn spec_num_params(&self) -> usize {
        unreachable!()
    }

    fn num_params(&self) -> usize {
        self.count
    }

    fn spec_param_shape(&self) -> (usize, usize) {
        unreachable!()
    }

    fn param_shape(&self) -> (usize, usize) {
        self.shape
    }

    fn spec_default_params(&self, _params: Vec<f64>) -> bool {
        unreachable!()
    }

    fn default_params(&self) -> Vec<f64> {
        self.start.clone()
    }

    fn spec_forward(&self, _input: MatrixView<f64>, _params: MatrixView<f64>) -> MatrixView<f64> {
        unreachable!()
    }

    fn forward(&self, input: &Matrix<f64>, _params: MatrixSlice<f64>) -> Matrix<f64> {
        input.clone()
    }

    fn spec_back_input(
        &self,
        _out_grad: MatrixView<f64>,
        _input: MatrixView<f64>,
        _params: MatrixView<f64>,
    ) -> MatrixView<f64> {
        unreachable!()
    }

    fn back_input(
        &self,
        out_grad: &Matrix<f64>,
        _input: &Matrix<f64>,
        _params: MatrixSlice<f64>,
    ) -> Matrix<f64> {
        out_grad.clone()
    }

    fn spec_back_params(
        &self,
        _out_grad: MatrixView<f64>,
        _input: MatrixView<f64>,
        _params: MatrixView<f64>,
    ) -> MatrixView<f64> {
        unreachable!()
    }

    fn back_params(
        &self,
        _out_grad: &Matrix<f64>,
        _input: &Matrix<f64>,
        params: MatrixSlice<f64>,
    ) -> Matrix<f64> {
        // The parameters themselves, doubled: easy to find again in a gradient.
        params.to_matrix().apply(|w| 2.0 * w)
    }
}

struct Plain;

impl ActivationFunc<f64> for Plain {
    fn spec_func(_x: f64) -> f64 {
        unreachable!()
    }

    fn func(x: f64) -> f64 {
        x
    }

    fn spec_func_grad(_x: f64) -> f64 {
        unreachable!()
    }

    fn func_grad(_x: f64) -> f64 {
        1.0
    }
}

struct Distance;

impl CostFunc<f64> for Distance {
    fn spec_cost(_outputs: MatrixView<f64>, _targets: MatrixView<f64>) -> f64 {
        unreachable!()
    }

    fn cost(outputs: &Matrix<f64>, targets: &Matrix<f64>) -> f64 {
        outputs.data().iter().zip(targets.data()).map(|(o, t)| (o - t).abs()).sum()
    }

    fn spec_grad_cost(_outputs: MatrixView<f64>, _targets: MatrixView<f64>) -> MatrixView<f64> {
        unreachable!()
    }

    fn grad_cost(outputs: &Matrix<f64>, targets: &Matrix<f64>) -> Matrix<f64> {
        let data = outputs.data().iter().zip(targets.data()).map(|(o, t)| (o - t).signum());
        Matrix::new(outputs.rows(), outputs.cols(), data.collect()).unwrap()
    }
}

struct Unpenalized;

impl Criterion<f64> for Unpenalized {
    type ActFunc = Plain;
    type Cost = Distance;

    fn spec_regularization(&self) -> Regularization<f64> {
        unreachable!()
    }

    fn regularization(&self) -> Regularization<f64> {
        Regularization::NoReg
    }

    fn spec_reg_cost(&self, _reg_weights: MatrixView<f64>) -> f64 {
        unreachable!()
    }

    fn reg_cost(&self, _reg_weights: MatrixSlice<f64>) -> f64 {
        0.0
    }

    fn spec_reg_cost_grad(&self, _reg_weights: MatrixView<f64>) -> MatrixView<f64> {
        unreachable!()
    }

    fn reg_cost_grad(&self, reg_weights: MatrixSlice<f64>) -> Matrix<f64> {
        reg_weights.to_matrix().apply(|_| 0.0)
    }
}

/// Layers of 6, 0, 4 and 2 parameters over the vector 0, 1, .., 11.
fn four_layers() -> BaseNeuralNet<f64, Unpenalized> {
    let mut net = BaseNeuralNet::new(Unpenalized);
    net.add_layer(block(2, 3, 0)).unwrap();
    net.add_layer(block(0, 0, 6)).unwrap();
    net.add_layer(block(4, 1, 6)).unwrap();
    net.add_layer(block(1, 2, 10)).unwrap();
    net
}

#[test]
fn matrix_keeps_shape_and_elements() {
    let m = Matrix::new(2, 3, vec![1, 2, 3, 4, 5, 6]).unwrap();
    assert_eq!((m.rows(), m.cols()), (2, 3));
    assert_eq!(m.data(), &[1, 2, 3, 4, 5, 6]);
    assert!(m.same_shape(&Matrix::new(2, 3, vec![0; 6]).unwrap()));
    assert!(!m.same_shape(&Matrix::new(3, 2, vec![0; 6]).unwrap()));
    let copy = m.clone();
    assert_eq!(copy.data(), m.data());
    assert_eq!(m.as_slice().data(), &[1, 2, 3, 4, 5, 6]);
    assert_eq!(m.into_vec(), vec![1, 2, 3, 4, 5, 6]);
    let empty = Matrix::<u8>::new(0, 5, Vec::new()).unwrap();
    assert_eq!((empty.rows(), empty.cols()), (0, 5));
}

#[test]
fn matrix_refuses_a_shape_that_is_not_filled() {
    assert_eq!(Matrix::new(2, 3, vec![1, 2, 3, 4, 5]).err(), Some(NetError::ShapeMismatch));
    assert_eq!(Matrix::new(2, 3, vec![0; 7]).err(), Some(NetError::ShapeMismatch));
    assert_eq!(Matrix::new(0, 3, vec![1]).err(), Some(NetError::ShapeMismatch));
    // A product beyond `usize` is no length of any vector.
    assert_eq!(Matrix::new(usize::MAX, 2, vec![1, 2]).err(), Some(NetError::ShapeMismatch));
    let data = [1, 2, 3, 4];
    assert_eq!(MatrixSlice::from_slice(&data, 3, 1).err(), Some(NetError::ShapeMismatch));
    assert_eq!(MatrixSlice::from_slice(&data, usize::MAX, 4).err(), Some(NetError::ShapeMismatch));
}

#[test]
fn apply_maps_every_element() {
    let m = Matrix::new(2, 2, vec![1, 2, 3, 4]).unwrap();
    let out = m.apply(|x| x * 10 + 1);
    assert_eq!((out.rows(), out.cols()), (2, 2));
    assert_eq!(out.data(), &[11, 21, 31, 41]);
}

#[test]
fn view_without_first_row() {
    let data = [1, 2, 3, 4, 5, 6];
    let view = MatrixSlice::from_slice(&data, 3, 2).unwrap();
    assert_eq!((view.rows(), view.cols()), (3, 2));
    let rest = view.without_first_row().unwrap();
    assert_eq!((rest.rows(), rest.cols()), (2, 2));
    assert_eq!(rest.data(), &[3, 4, 5, 6]);
    let last = rest.without_first_row().unwrap().without_first_row().unwrap();
    assert_eq!((last.rows(), last.cols()), (0, 2));
    assert!(last.data().is_empty());
    assert_eq!(last.without_first_row().err(), Some(NetError::EmptyView));
    let owned = rest.to_matrix();
    assert_eq!((owned.rows(), owned.cols()), (2, 2));
    assert_eq!(owned.data(), &[3, 4, 5, 6]);
}

#[test]
fn layer_views_tile_the_parameter_vector() {
    let net = four_layers();
    let weights: Vec<f64> = (0..12).map(|i| i as f64).collect();
    assert_eq!(net.weights(), &weights[..]);
    let shapes = [(2, 3), (0, 0), (4, 1), (1, 2)];
    let mut joined = Vec::new();
    for (i, shape) in shapes.iter().enumerate() {
        let view = net.get_layer_weights(&weights, i).unwrap();
        assert_eq!((view.rows(), view.cols()), *shape);
        assert_eq!(view.data().len(), shape.0 * shape.1);
        // Each view starts where the one before it ended.
        assert_eq!(view.data(), &weights[joined.len()..joined.len() + view.data().len()]);
        joined.extend_from_slice(view.data());
    }
    assert_eq!(joined, weights);
}

#[test]
fn views_of_other_weights_use_the_same_layout() {
    let net = four_layers();
    let other: Vec<f64> = (0..12).map(|i| 100.0 - i as f64).collect();
    let view = net.get_layer_weights(&other, 2).unwrap();
    assert_eq!(view.data(), &[94.0, 93.0, 92.0, 91.0]);
    assert_eq!(net.get_net_weights(2).unwrap().data(), &[6.0, 7.0, 8.0, 9.0]);
    assert_eq!(net.get_net_weights(3).unwrap().data(), &[10.0, 11.0]);
}

#[test]
fn layer_index_beyond_the_stack_is_refused() {
    let net = four_layers();
    let weights = vec![0.0; 12];
    assert_eq!(net.get_layer_weights(&weights, 4).err(), Some(NetError::IndexOutOfRange));
    assert_eq!(net.get_net_weights(usize::MAX).err(), Some(NetError::IndexOutOfRange));
    assert_eq!(net.get_non_bias_weights(&weights, 9).err(), Some(NetError::IndexOutOfRange));
    // The index is looked at before the length.
    assert_eq!(net.get_layer_weights(&[], 4).err(), Some(NetError::IndexOutOfRange));
    let empty = BaseNeuralNet::new(Unpenalized);
    assert_eq!(empty.get_net_weights(0).err(), Some(NetError::IndexOutOfRange));
}

#[test]
fn weights_of_another_length_are_refused() {
    let net = four_layers();
    assert_eq!(net.get_layer_weights(&[0.0; 11], 0).err(), Some(NetError::BufferLengthMismatch));
    assert_eq!(net.get_layer_weights(&[0.0; 13], 3).err(), Some(NetError::BufferLengthMismatch));
    assert_eq!(
        net.get_non_bias_weights(&[], 1).err(),
        Some(NetError::BufferLengthMismatch)
    );
}

#[test]
fn non_bias_weights_skip_the_first_row() {
    let net = four_layers();
    let weights: Vec<f64> = (0..12).map(|i| i as f64).collect();
    let first = net.get_non_bias_weights(&weights, 0).unwrap();
    assert_eq!((first.rows(), first.cols()), (1, 3));
    assert_eq!(first.data(), &[3.0, 4.0, 5.0]);
    let third = net.get_non_bias_weights(&weights, 2).unwrap();
    assert_eq!((third.rows(), third.cols()), (3, 1));
    assert_eq!(third.data(), &[7.0, 8.0, 9.0]);
    let last = net.get_non_bias_weights(&weights, 3).unwrap();
    assert_eq!((last.rows(), last.cols()), (0, 2));
    // The second layer has no rows at all.
    assert_eq!(net.get_non_bias_weights(&weights, 1).err(), Some(NetError::EmptyView));
}

#[test]
fn layer_whose_shape_does_not_hold_its_count_is_refused() {
    let mut net = four_layers();
    assert_eq!(
        net.add_layer(shaped(5, (2, 3), vec![0.0; 5])).err(),
        Some(NetError::ShapeMismatch)
    );
    assert_eq!(
        net.add_layer(shaped(0, (usize::MAX, 2), Vec::new())).err(),
        Some(NetError::ShapeMismatch)
    );
    assert_eq!(net.num_layers(), 4);
    assert_eq!(net.weights().len(), 12);
}

#[test]
fn layer_with_too_few_or_too_many_parameters_is_refused() {
    let mut net = four_layers();
    assert_eq!(
        net.add_layer(shaped(6, (2, 3), vec![0.0; 5])).err(),
        Some(NetError::BufferLengthMismatch)
    );
    assert_eq!(
        net.add_layer_with_params(block(2, 3, 0), vec![0.0; 7]).err(),
        Some(NetError::BufferLengthMismatch)
    );
    assert_eq!(net.num_layers(), 4);
    assert_eq!(net.weights().len(), 12);
    assert_eq!(net.add_layer_with_params(block(2, 1, 0), vec![-1.0, -2.0]), Ok(()));
    assert_eq!(net.num_layers(), 5);
    assert_eq!(net.get_net_weights(4).unwrap().data(), &[-1.0, -2.0]);
    assert_eq!(&net.weights()[..12], &four_layers().weights()[..]);
}

#[test]
fn set_weights_keeps_the_length() {
    let mut net = four_layers();
    assert_eq!(net.set_weights(vec![1.0; 11]), Err(NetError::BufferLengthMismatch));
    assert_eq!(net.weights()[11], 11.0);
    assert_eq!(net.set_weights(vec![1.0; 12]), Ok(()));
    assert_eq!(net.weights(), &[1.0; 12]);
}

#[test]
fn gradient_is_laid_out_as_the_parameters_are() {
    let net = four_layers();
    let weights: Vec<f64> = (0..12).map(|i| i as f64).collect();
    let x = Matrix::new(1, 1, vec![1.0]).unwrap();
    let (cost, gradient) = net.compute_grad(&weights, &x, &x).unwrap();
    assert_eq!(cost, 0.0);
    // Each layer returns twice its own parameters as their gradient.
    let doubled: Vec<f64> = weights.iter().map(|w| 2.0 * w).collect();
    assert_eq!(gradient, doubled);
}

#[test]
fn initial_weights_come_block_by_block() {
    let tag = |fan_in: usize, fan_out: usize| (100 * fan_in + fan_out) as f64;
    let weights = BaseNeuralNet::<f64, Unpenalized>::create_weights(&[2, 3, 1], tag).unwrap();
    // (2 + 1) * 3 weights for the first dense layer, (3 + 1) * 1 for the second.
    assert_eq!(weights.len(), 9 + 4);
    assert_eq!(&weights[..9], &[303.0; 9]);
    assert_eq!(&weights[9..], &[401.0; 4]);
    let none = BaseNeuralNet::<f64, Unpenalized>::create_weights(&[5], tag).unwrap();
    assert!(none.is_empty());
    let empty = BaseNeuralNet::<f64, Unpenalized>::create_weights(&[], tag).unwrap();
    assert!(empty.is_empty());
    let zero = BaseNeuralNet::<f64, Unpenalized>::create_weights(&[4, 0, 2], tag).unwrap();
    assert_eq!(zero, vec![102.0, 102.0]);
}

#[test]
fn initial_weights_beyond_usize_are_refused() {
    let tag = |_: usize, _: usize| 0.0;
    assert!(BaseNeuralNet::<f64, Unpenalized>::create_weights(&[usize::MAX, 1], tag).is_none());
    assert!(BaseNeuralNet::<f64, Unpenalized>::create_weights(&[usize::MAX / 2, 3], tag).is_none());
    // No weights are needed where the fan-out is zero, whatever the fan-in.
    let none = BaseNeuralNet::<f64, Unpenalized>::create_weights(&[usize::MAX, 0], tag).unwrap();
    assert!(none.is_empty());
}

#[test]
fn random_initial_weights_stay_in_their_range() {
    let unit = Range::new(0f64, 1f64);
    let sample = |fan_in: usize, fan_out: usize| {
        let eps = (6f64 / (fan_in + fan_out) as f64).sqrt();
        unit.ind_sample(&mut rand::thread_rng()) * 2f64 * eps - eps
    };
    let weights = BaseNeuralNet::<f64, Unpenalized>::create_weights(&[3, 5, 2], sample).unwrap();
    assert_eq!(weights.len(), 4 * 5 + 6 * 2);
    let first = (6f64 / 9.0).sqrt();
    let second = (6f64 / 8.0).sqrt();
    assert!(weights[..20].iter().all(|w| w.abs() <= first));
    assert!(weights[20..].iter().all(|w| w.abs() <= second));
    assert!(weights.iter().any(|w| *w != weights[0]));
}
