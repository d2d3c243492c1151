//! The training and inference core of a feed-forward neural network: a stack
//! of layers that share one flat parameter vector, forward propagation,
//! back-propagation of gradients, and the criterion that scores the output.

pub mod criterion;
pub mod error;
pub mod init;
pub mod layer;
pub mod layout;
pub mod matrix;
pub mod net;
pub mod optim;
pub mod propagation;

pub use crate::criterion::{ActivationFunc, CostFunc, Criterion, Regularization};
pub use crate::error::NetError;
pub use crate::layer::{Layer, NetLayer};
pub use crate::matrix::{Matrix, MatrixSlice, MatrixView};
pub use crate::net::{BaseNeuralNet, NeuralNet};
pub use crate::optim::{OptimAlgorithm, Optimizable, SupModel};
