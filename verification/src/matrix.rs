use vstd::prelude::*;

use crate::error::GenError;
use crate::vector::Vector;

verus! {

/// A 2-D container of samples with shape `(rows, cols)`, filled from a flat
/// sample stream under the one fill order this crate commits to, row-major:
/// element `(i, j)` is Sample Stream position `i * cols + j`.
///
/// The stream's backing storage is adopted without copying and owned by the
/// matrix; the flat view and the two-dimensional view are the same data.
#[derive(Debug)]
pub struct Matrix {
    rows: usize,
    cols: usize,
    data: Vec<u64>,
}

impl Matrix {
    /// The shape and the adopted stream agree: the stream holds exactly
    /// `rows * cols` samples.
    #[verifier::type_invariant]
    closed spec fn wf(&self) -> bool {
        self.data@.len() == self.rows * self.cols
    }

    /// The number of rows.
    pub closed spec fn spec_rows(&self) -> usize {
        self.rows
    }

    /// The number of columns.
    pub closed spec fn spec_cols(&self) -> usize {
        self.cols
    }

    /// The mathematical content of the matrix: its flat sample stream, in
    /// row-major order.
    pub closed spec fn view(&self) -> Seq<u64> {
        self.data@
    }

    /// The sample at `(i, j)`, as a position of the flat stream: row-major,
    /// so the column index varies fastest.
    pub open spec fn entry(&self, i: int, j: int) -> u64 {
        self@[i * self.spec_cols() + j]
    }

    /// Reshapes a flat sample stream into a `rows` by `cols` matrix under
    /// row-major fill: succeeds exactly when the stream holds `rows * cols`
    /// samples, and fails with `ShapeMismatch` otherwise. A shape with
    /// `rows == 0` or `cols == 0` and an empty stream yields a valid empty
    /// matrix, not an error.
    pub fn from_stream(rows: usize, cols: usize, stream: Vec<u64>) -> (r: Result<Matrix, GenError>)
        ensures
            r is Ok <==> stream@.len() == rows * cols,
            r is Ok ==> {
                &&& r->Ok_0.spec_rows() == rows
                &&& r->Ok_0.spec_cols() == cols
                &&& r->Ok_0@ == stream@
            },
            r is Err ==> r->Err_0 == GenError::ShapeMismatch,
    {
        match rows.checked_mul(cols) {
            Some(n) => {
                if stream.len() == n {
                    Ok(Matrix { rows, cols, data: stream })
                } else {
                    Err(GenError::ShapeMismatch)
                }
            },
            None => {
                // The product exceeds usize::MAX, so no stream can match it.
                let actual = stream.len();
                assert(actual < rows * cols);
                Err(GenError::ShapeMismatch)
            },
        }
    }

    /// The number of rows.
    pub fn rows(&self) -> (r: usize)
        ensures
            r == self.spec_rows(),
    {
        self.rows
    }

    /// The number of columns.
    pub fn cols(&self) -> (r: usize)
        ensures
            r == self.spec_cols(),
    {
        self.cols
    }

    /// The total number of samples held: always `rows * cols`.
    pub fn len(&self) -> (r: usize)
        ensures
            r == self@.len(),
            r == self.spec_rows() * self.spec_cols(),
    {
        proof {
            use_type_invariant(self);
        }
        self.data.len()
    }

    /// The sample at `(i, j)`.
    pub fn get(&self, i: usize, j: usize) -> (r: u64)
        requires
            i < self.spec_rows(),
            j < self.spec_cols(),
        ensures
            r == self.entry(i as int, j as int),
    {
        let n = self.data.len();
        proof {
            use_type_invariant(self);
            assert(i * self.cols + j < self.rows * self.cols) by (nonlinear_arith)
                requires
                    i < self.rows,
                    j < self.cols,
            {}
            assert(i * self.cols + j < n);
        }
        self.data[i * self.cols + j]
    }

    /// Releases the backing stream, unchanged and in row-major order, to the
    /// caller: flattening a matrix recovers exactly the stream it adopted.
    pub fn into_stream(self) -> (r: Vec<u64>)
        ensures
            r@ == self@,
            r@.len() == self.spec_rows() * self.spec_cols(),
    {
        proof {
            use_type_invariant(&self);
        }
        self.data
    }
}

/// Law of cross-consistency between the two assemblers: a matrix and a
/// vector adopted from the same sample stream hold the same samples in the
/// same positions — the matrix entry `(i, j)` is the vector sample at flat
/// position `i * cols + j`.
pub proof fn lemma_matrix_vector_consistent(m: Matrix, v: Vector, i: int, j: int)
    requires
        v@ == m@,
        0 <= i < m.spec_rows(),
        0 <= j < m.spec_cols(),
    ensures
        m.entry(i, j) == v@[i * m.spec_cols() + j],
{
}

} // verus!
