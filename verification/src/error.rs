//! The ways in which a request to the network can fail.

use vstd::prelude::*;

verus! {

/// Why the network refused a request. None of these is recoverable by the
/// network itself: the caller has to correct the layout or the data.
#[derive(Clone, Copy, Debug, PartialEq, Eq, Structural)]
pub enum NetError {
    /// Two shapes that have to agree do not: a matrix and the data it is
    /// built from, a layer's declared parameter shape and its parameter
    /// count, the network's output and the targets, or a layer's parameter
    /// gradient and its parameter slice.
    ShapeMismatch,
    /// The length of a parameter vector differs from the sum of the layers'
    /// parameter counts.
    BufferLengthMismatch,
    /// A layer index at or beyond the number of layers.
    IndexOutOfRange,
    /// The first row of a view without rows was to be stripped.
    EmptyView,
}

} // verus!
