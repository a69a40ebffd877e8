//! Core of a parallel standard-normal generator: the assembly and layout
//! logic that turns a flat, index-addressable stream of independent draws
//! into structured containers (vector, matrix, batch of matrices).
//!
//! A drawn scalar is carried through this crate as its 64-bit pattern
//! (`u64`), exactly as handed in; the crate never inspects or alters a
//! sample, it only arranges samples. Drawing itself, which produces
//! floating-point values, happens outside this crate: a host partitions an
//! index range with [`partition_ranges`], fills each range with its own
//! generator instance, and hands the flat stream to the assemblers here.

use vstd::prelude::*;

mod batch;
mod error;
mod matrix;
mod partition;
mod vector;

pub use batch::assemble_batch;
pub use batch::plan_batch;
pub use batch::MAX_TOTAL_SAMPLES;
pub use error::GenError;
pub use matrix::lemma_matrix_vector_consistent;
pub use matrix::Matrix;
pub use partition::concat_streams;
pub use partition::lemma_assembled_len;
pub use partition::lemma_ranges_cover;
pub use partition::lemma_ranges_disjoint;
pub use partition::partition_ranges;
pub use partition::ranges_total;
pub use partition::ranges_wf;
pub use partition::streams_cat;
pub use vector::Vector;
