use vstd::prelude::*;

verus! {

/// The error taxonomy of the generator core.
///
/// Every failure is detected at or before assembly time, and no partial or
/// degraded result is ever returned: a caller receives either a fully
/// assembled container or one of these values.
#[derive(Clone, Copy, Debug, PartialEq, Eq, Structural)]
pub enum GenError {
    /// A flat sample stream was offered to the matrix assembler whose length
    /// does not equal `rows * cols`.
    ShapeMismatch,
    /// A requested batch would exceed the configured memory ceiling; it is
    /// refused before any buffer is allocated.
    AllocationError,
    /// The underlying randomness source is unavailable: fatal and
    /// non-retryable. Only a sampling host can observe this condition; the
    /// assemblers here never raise it, since they draw nothing themselves.
    EntropySourceFailure,
}

} // verus!
