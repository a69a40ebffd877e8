use vstd::prelude::*;

use crate::error::GenError;
use crate::matrix::Matrix;

verus! {

/// The configured memory ceiling: the largest total number of samples one
/// batch may request. A batch whose `rows * cols * sims` exceeds it is
/// refused before any buffer is allocated.
pub const MAX_TOTAL_SAMPLES: usize = 1_073_741_824;

/// Plans a batch of `sims` matrices of shape `(rows, cols)`: returns the
/// total number of samples to draw, `rows * cols * sims`, or refuses with
/// `AllocationError` exactly when that total exceeds the memory ceiling.
/// The check happens on the requested sizes alone, so a refused batch
/// allocates nothing, not even partially.
pub fn plan_batch(rows: usize, cols: usize, sims: usize) -> (r: Result<usize, GenError>)
    ensures
        r is Ok <==> rows * cols * sims <= MAX_TOTAL_SAMPLES,
        r is Ok ==> r->Ok_0 == rows * cols * sims,
        r is Err ==> r->Err_0 == GenError::AllocationError,
{
    if rows == 0 || cols == 0 || sims == 0 {
        return Ok(0);
    }
    match rows.checked_mul(cols) {
        Some(rc) => match rc.checked_mul(sims) {
            Some(total) => {
                if total <= MAX_TOTAL_SAMPLES {
                    Ok(total)
                } else {
                    Err(GenError::AllocationError)
                }
            },
            None => {
                // The total exceeds usize::MAX, which is above the ceiling.
                Err(GenError::AllocationError)
            },
        },
        None => {
            // Already `rows * cols` exceeds usize::MAX; with `sims >= 1` the
            // total can only be larger still.
            proof {
                assert(rows * cols * sims >= rows * cols) by (nonlinear_arith)
                    requires
                        sims >= 1,
                        rows >= 0,
                        cols >= 0,
                {}
            }
            Err(GenError::AllocationError)
        },
    }
}

/// Assembles an ordered batch of matrices, one per sample stream, each of
/// shape `(rows, cols)` under row-major fill. Matrix `k` of the batch adopts
/// stream `k` and nothing else, so the matrices share no sample and the
/// batch order is the stream order — by simulation index, never by
/// completion order. Succeeds exactly when every stream holds `rows * cols`
/// samples; otherwise nothing is returned but `ShapeMismatch`.
pub fn assemble_batch(rows: usize, cols: usize, streams: Vec<Vec<u64>>) -> (r: Result<
    Vec<Matrix>,
    GenError,
>)
    ensures
        r is Ok <==> (forall|k: int|
            0 <= k < streams@.len() ==> (#[trigger] streams@[k])@.len() == rows * cols),
        r is Ok ==> {
            &&& r->Ok_0@.len() == streams@.len()
            &&& forall|k: int|
                0 <= k < streams@.len() ==> {
                    &&& (#[trigger] r->Ok_0@[k]).spec_rows() == rows
                    &&& r->Ok_0@[k].spec_cols() == cols
                    &&& r->Ok_0@[k]@ == streams@[k]@
                }
        },
        r is Err ==> r->Err_0 == GenError::ShapeMismatch,
{
    let ghost orig = streams@;
    let mut rest = streams;
    let mut out: Vec<Matrix> = Vec::new();
    while rest.len() > 0
        invariant
            streams@ == orig,
            out@.len() + rest@.len() == orig.len(),
            forall|k: int| 0 <= k < rest@.len() ==> #[trigger] rest@[k] == orig[out@.len() + k],
            forall|k: int|
                0 <= k < out@.len() ==> {
                    &&& (#[trigger] out@[k]).spec_rows() == rows
                    &&& out@[k].spec_cols() == cols
                    &&& out@[k]@ == orig[k]@
                },
            forall|k: int| 0 <= k < out@.len() ==> (#[trigger] orig[k])@.len() == rows * cols,
        decreases rest@.len(),
    {
        let ghost done = out@.len() as int;
        let s = rest.remove(0);
        assert(s == orig[done]);
        match Matrix::from_stream(rows, cols, s) {
            Ok(m) => {
                out.push(m);
            },
            Err(e) => {
                assert(streams@[done]@.len() != rows * cols);
                return Err(e);
            },
        }
    }
    Ok(out)
}

} // verus!
