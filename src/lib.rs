//! Sublinear similarity engine: the integer and structural core of a
//! Johnson-Lindenstrauss similarity service and of a set of dense matrix
//! diagnostics.

use vstd::prelude::*;

pub mod error;
pub mod ranking;
pub mod projection;
pub mod diagnostics;
pub mod service;

pub use diagnostics::{densify, is_sparse, DenseMatrix, SolveMethod};
pub use error::CoreError;
pub use projection::{check_same_dimension, ProjectorShape};
pub use ranking::{check_corpus_dimensions, rank_scores};
pub use service::{complexity_label, MatrixStructure, SublinearServiceImpl};

verus! {

/// Version of this library.
pub const VERSION: &'static str = "0.1.0";

} // verus!
