//! The shape of a Johnson-Lindenstrauss projector: its validated source
//! dimension and distortion, and its target dimension.
//!
//! The distortion arrives as the bit pattern of an IEEE-754 binary64 value;
//! among non-negative doubles the order of the values is the order of their
//! bits, so `0 < ε < 1` is a test on the bits.
use vstd::prelude::*;

use crate::error::CoreError;

verus! {

/// Bits of the binary64 value `1.0`.
pub const ONE_BITS: u64 = 0x3FF0_0000_0000_0000;

/// The smallest target dimension a projector is given.
pub const MIN_TARGET_DIMENSION: usize = 4;

/// The bits encode a double strictly between 0 and 1.
pub open spec fn in_open_unit_interval(bits: u64) -> bool {
    0 < bits < ONE_BITS
}

/// Valid projector parameters: a nonzero source dimension and a distortion in (0, 1).
pub open spec fn valid_params(source_dimension: usize, distortion_bits: u64) -> bool {
    source_dimension >= 1 && in_open_unit_interval(distortion_bits)
}

/// The target dimension given the logarithmic bound `ceil(ln(n) / ε²)`:
/// that bound, but never less than the minimum.
pub open spec fn target_dimension_of(log_bound: usize) -> usize {
    if log_bound < MIN_TARGET_DIMENSION {
        MIN_TARGET_DIMENSION
    } else {
        log_bound
    }
}

/// Dimensions of a projector from `source_dimension` to `target_dimension`.
#[derive(Debug, Clone, Copy, PartialEq, Eq, Structural)]
pub struct ProjectorShape {
    pub source_dimension: usize,
    pub target_dimension: usize,
    pub distortion_bits: u64,
}

impl ProjectorShape {
    pub open spec fn wf(&self) -> bool {
        &&& valid_params(self.source_dimension, self.distortion_bits)
        &&& self.target_dimension >= MIN_TARGET_DIMENSION
    }

    /// Builds the shape of a projector for `source_dimension` and the distortion
    /// with bits `distortion_bits`; `log_bound` is `ceil(ln(n) / ε²)`.
    /// Fails with `DegenerateInput` on a zero source dimension or a distortion
    /// outside (0, 1).
    pub fn new(source_dimension: usize, distortion_bits: u64, log_bound: usize) -> (r: Result<
        ProjectorShape,
        CoreError,
    >)
        ensures
            valid_params(source_dimension, distortion_bits) ==> r == Ok::<ProjectorShape, CoreError>(
                (ProjectorShape {
                    source_dimension,
                    target_dimension: target_dimension_of(log_bound),
                    distortion_bits,
                }),
            ),
            !valid_params(source_dimension, distortion_bits) ==> r == Err::<
                ProjectorShape,
                CoreError,
            >(CoreError::DegenerateInput),
            r matches Ok(s) ==> s.wf() && s.target_dimension >= MIN_TARGET_DIMENSION,
    {
        if source_dimension == 0 || distortion_bits == 0 || distortion_bits >= ONE_BITS {
            return Err(CoreError::DegenerateInput);
        }
        let target_dimension = if log_bound < MIN_TARGET_DIMENSION {
            MIN_TARGET_DIMENSION
        } else {
            log_bound
        };
        Ok(ProjectorShape { source_dimension, target_dimension, distortion_bits })
    }

    /// Checks that a vector of length `len` can be projected.
    pub fn check_vector(&self, len: usize) -> (r: Result<(), CoreError>)
        ensures
            r is Ok <==> len == self.source_dimension,
            r is Err ==> r == Err::<(), CoreError>(CoreError::DimensionMismatch),
    {
        if len == self.source_dimension {
            Ok(())
        } else {
            Err(CoreError::DimensionMismatch)
        }
    }

    /// Checks that every row of a batch, given by its length, can be projected.
    pub fn check_batch(&self, row_lens: &Vec<usize>) -> (r: Result<(), CoreError>)
        ensures
            r is Ok <==> forall|i: int| 0 <= i < row_lens.len() ==> row_lens@[i] == self.source_dimension,
            r is Err ==> r == Err::<(), CoreError>(CoreError::DimensionMismatch),
    {
        crate::ranking::check_corpus_dimensions(self.source_dimension, row_lens)
    }
}

/// Checks that two vectors to be compared have the same length.
pub fn check_same_dimension(a_len: usize, b_len: usize) -> (r: Result<(), CoreError>)
    ensures
        r is Ok <==> a_len == b_len,
        r is Err ==> r == Err::<(), CoreError>(CoreError::DimensionMismatch),
{
    if a_len == b_len {
        Ok(())
    } else {
        Err(CoreError::DimensionMismatch)
    }
}

/// A larger logarithmic bound never gives a smaller target dimension, and
/// every target dimension is at least the minimum.
pub proof fn lemma_target_dimension_monotone(smaller: usize, larger: usize)
    requires
        smaller <= larger,
    ensures
        target_dimension_of(smaller) <= target_dimension_of(larger),
        target_dimension_of(smaller) >= MIN_TARGET_DIMENSION,
{
}

} // verus!
