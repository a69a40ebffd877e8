use vstd::prelude::*;

verus! {

/// A 1-D container of samples: element `i` is Sample Stream position `i`.
///
/// The backing storage of the stream is adopted without copying; the stream
/// is consumed by the assembler and owned by the resulting vector.
pub struct Vector {
    data: Vec<u64>,
}

impl Vector {
    /// The mathematical content of the vector: the sample stream it adopted.
    pub closed spec fn view(&self) -> Seq<u64> {
        self.data@
    }

    /// Adopts a flat sample stream of length `n` as a vector of length `n`,
    /// with `result[i] == stream[i]`. Never fails; an empty stream yields an
    /// empty vector.
    pub fn from_stream(stream: Vec<u64>) -> (r: Vector)
        ensures
            r@ == stream@,
    {
        Vector { data: stream }
    }

    /// The number of samples held.
    pub fn len(&self) -> (r: usize)
        ensures
            r == self@.len(),
    {
        self.data.len()
    }

    /// The sample at position `i`.
    pub fn get(&self, i: usize) -> (r: u64)
        requires
            i < self@.len(),
        ensures
            r == self@[i as int],
    {
        self.data[i]
    }

    /// Releases the backing stream, unchanged, to the caller.
    pub fn into_stream(self) -> (r: Vec<u64>)
        ensures
            r@ == self@,
    {
        self.data
    }
}

} // verus!
