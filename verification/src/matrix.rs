//! Dense row-major matrices and borrowed views of packed rows.
//!
//! A [`Matrix`] owns its elements; a [`MatrixSlice`] borrows a contiguous run
//! of them and reads it as rows of equal length. Both describe themselves by
//! the same mathematical value, a [`MatrixView`].

use crate::error::NetError;
use vstd::prelude::*;
use vstd::slice::{slice_subrange, slice_to_vec};

verus! {

/// What a matrix is: its shape and its elements, row after row.
#[verifier::ext_equal]
pub struct MatrixView<T> {
    pub rows: nat,
    pub cols: nat,
    pub data: Seq<T>,
}

impl<T> MatrixView<T> {
    /// The elements fill the shape exactly.
    pub open spec fn wf(self) -> bool {
        self.data.len() == self.rows * self.cols
    }

    /// As many rows and as many columns as `other`.
    pub open spec fn same_shape(self, other: MatrixView<T>) -> bool {
        self.rows == other.rows && self.cols == other.cols
    }

    /// The matrix of the same shape whose elements are `f` of these.
    pub open spec fn map_values(self, f: spec_fn(T) -> T) -> MatrixView<T> {
        MatrixView { rows: self.rows, cols: self.cols, data: self.data.map_values(f) }
    }

    /// The same columns without the first row.
    pub open spec fn without_first_row(self) -> MatrixView<T>
        recommends
            self.rows > 0,
    {
        MatrixView {
            rows: (self.rows - 1) as nat,
            cols: self.cols,
            data: self.data.subrange(self.cols as int, self.data.len() as int),
        }
    }
}

/// An owned matrix whose rows lie one after another in `data`.
#[derive(Debug)]
pub struct Matrix<T> {
    rows: usize,
    cols: usize,
    data: Vec<T>,
}

impl<T> View for Matrix<T> {
    type V = MatrixView<T>;

    closed spec fn view(&self) -> MatrixView<T> {
        MatrixView { rows: self.rows as nat, cols: self.cols as nat, data: self.data@ }
    }
}

impl<T> Matrix<T> {
    #[verifier::type_invariant]
    spec fn filled(self) -> bool {
        self.data@.len() == self.rows * self.cols
    }

    /// Builds a matrix of the given shape from its elements in row-major
    /// order, and refuses a shape that the elements do not fill exactly.
    pub fn new(rows: usize, cols: usize, data: Vec<T>) -> (res: Result<Matrix<T>, NetError>)
        ensures
            match res {
                Ok(m) => rows * cols == data@.len() && m@ == (MatrixView {
                    rows: rows as nat,
                    cols: cols as nat,
                    data: data@,
                }),
                Err(e) => rows * cols != data@.len() && e == NetError::ShapeMismatch,
            },
    {
        let len = data.len();
        match rows.checked_mul(cols) {
            Some(n) => {
                if n == len {
                    Ok(Matrix { rows, cols, data })
                } else {
                    Err(NetError::ShapeMismatch)
                }
            },
            None => Err(NetError::ShapeMismatch),
        }
    }

    /// The number of rows.
    pub fn rows(&self) -> (r: usize)
        ensures
            r == self@.rows,
    {
        self.rows
    }

    /// The number of columns.
    pub fn cols(&self) -> (c: usize)
        ensures
            c == self@.cols,
    {
        self.cols
    }

    /// The elements in row-major order.
    pub fn data(&self) -> (d: &[T])
        ensures
            d@ == self@.data,
            self@.wf(),
    {
        proof {
            use_type_invariant(self);
        }
        self.data.as_slice()
    }

    /// Gives up the matrix for its elements.
    pub fn into_vec(self) -> (d: Vec<T>)
        ensures
            d@ == self@.data,
            self@.wf(),
    {
        proof {
            use_type_invariant(&self);
        }
        self.data
    }

    /// The whole matrix as a borrowed view.
    pub fn as_slice(&self) -> (s: MatrixSlice<'_, T>)
        ensures
            s@ == self@,
            self@.wf(),
    {
        proof {
            use_type_invariant(self);
        }
        MatrixSlice { rows: self.rows, cols: self.cols, data: self.data.as_slice() }
    }

    /// Whether two matrices have the same number of rows and of columns.
    pub fn same_shape(&self, other: &Matrix<T>) -> (b: bool)
        ensures
            b == self@.same_shape(other@),
    {
        self.rows == other.rows && self.cols == other.cols
    }
}

impl<T: Copy> Clone for Matrix<T> {
    /// A matrix of the same shape and the same elements.
    fn clone(&self) -> (out: Self)
        ensures
            out@ == self@,
    {
        proof {
            use_type_invariant(self);
        }
        Matrix { rows: self.rows, cols: self.cols, data: slice_to_vec(self.data.as_slice()) }
    }
}

impl<T: Copy> Matrix<T> {
    /// Replaces every element by what `f` makes of it. The shape stays.
    pub fn apply(self, f: impl Fn(T) -> T) -> (out: Matrix<T>)
        requires
            forall|i: int|
                0 <= i < self@.data.len() ==> call_requires(f, (#[trigger] self@.data[i],)),
        ensures
            out@.rows == self@.rows,
            out@.cols == self@.cols,
            out@.data.len() == self@.data.len(),
            forall|i: int|
                0 <= i < self@.data.len() ==> call_ensures(
                    f,
                    (self@.data[i],),
                    #[trigger] out@.data[i],
                ),
    {
        proof {
            use_type_invariant(&self);
        }
        let ghost before = self@.data;
        let Matrix { rows, cols, data } = self;
        let mut data = data;
        let n = data.len();
        let mut i: usize = 0;
        while i < n
            invariant
                i <= n,
                n == before.len(),
                data@.len() == n,
                forall|j: int| 0 <= j < n ==> call_requires(f, (#[trigger] before[j],)),
                forall|j: int| 0 <= j < i ==> call_ensures(f, (before[j],), #[trigger] data@[j]),
                forall|j: int| i <= j < n ==> data@[j] == before[j],
            decreases n - i,
        {
            let x = data[i];
            assert(x == before[i as int]);
            data[i] = f(x);
            i += 1;
        }
        Matrix { rows, cols, data }
    }
}

/// A borrowed view of packed rows: `rows * cols` consecutive elements, each
/// row directly behind the one before it.
#[derive(Debug)]
pub struct MatrixSlice<'a, T> {
    rows: usize,
    cols: usize,
    data: &'a [T],
}

impl<'a, T> View for MatrixSlice<'a, T> {
    type V = MatrixView<T>;

    closed spec fn view(&self) -> MatrixView<T> {
        MatrixView { rows: self.rows as nat, cols: self.cols as nat, data: self.data@ }
    }
}

impl<'a, T> Clone for MatrixSlice<'a, T> {
    fn clone(&self) -> (out: Self)
        ensures
            out == *self,
    {
        *self
    }
}

impl<'a, T> Copy for MatrixSlice<'a, T> {

}

impl<'a, T> MatrixSlice<'a, T> {
    #[verifier::type_invariant]
    spec fn filled(self) -> bool {
        self.data@.len() == self.rows * self.cols
    }

    /// Reads `data` as `rows` rows of `cols` elements, and refuses a shape
    /// that the elements do not fill exactly.
    pub fn from_slice(data: &'a [T], rows: usize, cols: usize) -> (res: Result<
        MatrixSlice<'a, T>,
        NetError,
    >)
        ensures
            match res {
                Ok(s) => rows * cols == data@.len() && s@ == (MatrixView {
                    rows: rows as nat,
                    cols: cols as nat,
                    data: data@,
                }),
                Err(e) => rows * cols != data@.len() && e == NetError::ShapeMismatch,
            },
    {
        let len = data.len();
        match rows.checked_mul(cols) {
            Some(n) => {
                if n == len {
                    Ok(MatrixSlice { rows, cols, data })
                } else {
                    Err(NetError::ShapeMismatch)
                }
            },
            None => Err(NetError::ShapeMismatch),
        }
    }

    /// The number of rows.
    pub fn rows(&self) -> (r: usize)
        ensures
            r == self@.rows,
    {
        self.rows
    }

    /// The number of columns.
    pub fn cols(&self) -> (c: usize)
        ensures
            c == self@.cols,
    {
        self.cols
    }

    /// The elements in row-major order.
    pub fn data(&self) -> (d: &'a [T])
        ensures
            d@ == self@.data,
            self@.wf(),
    {
        proof {
            use_type_invariant(self);
        }
        self.data
    }

    /// An owned copy of what the view shows.
    pub fn to_matrix(&self) -> (m: Matrix<T>) where T: Copy
        ensures
            m@ == self@,
    {
        proof {
            use_type_invariant(self);
        }
        Matrix { rows: self.rows, cols: self.cols, data: slice_to_vec(self.data) }
    }

    /// The view without its first row, which is where a layer with a bias
    /// keeps the bias weights. A view without rows has no first row to strip.
    pub fn without_first_row(&self) -> (res: Result<MatrixSlice<'a, T>, NetError>)
        ensures
            match res {
                Ok(s) => self@.rows > 0 && s@ == self@.without_first_row(),
                Err(e) => self@.rows == 0 && e == NetError::EmptyView,
            },
    {
        proof {
            use_type_invariant(self);
        }
        if self.rows == 0 {
            return Err(NetError::EmptyView);
        }
        assert(self.rows * self.cols == (self.rows - 1) * self.cols + self.cols)
            by (nonlinear_arith)
            requires
                self.rows >= 1,
        ;
        let rest = slice_subrange(self.data, self.cols, self.data.len());
        Ok(MatrixSlice { rows: self.rows - 1, cols: self.cols, data: rest })
    }
}

} // verus!
