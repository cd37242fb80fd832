//! The similarity service: the labels it reports, the structural half of a
//! matrix analysis, and the exact-solve operation, which is reported as not
//! implemented rather than answered with made-up convergence data.
use vstd::prelude::*;

use crate::diagnostics::{densify, is_sparse, sparse_spec, valid_triples, DenseMatrix};
use crate::error::CoreError;
use crate::projection::{check_same_dimension, target_dimension_of, valid_params, ProjectorShape};
use crate::ranking::check_corpus_dimensions;

verus! {

/// Name of the method used for a pairwise comparison.
pub const COMPARE_METHOD: &'static str = "sublinear_jl";

/// Complexity reported for a matrix analysis.
pub const ANALYSIS_COMPLEXITY: &'static str = "O(log n)";

/// The decimal digit `d`, for `d < 10`.
pub open spec fn digit_spec(d: nat) -> Seq<char> {
    if d == 0 {
        "0"@
    } else if d == 1 {
        "1"@
    } else if d == 2 {
        "2"@
    } else if d == 3 {
        "3"@
    } else if d == 4 {
        "4"@
    } else if d == 5 {
        "5"@
    } else if d == 6 {
        "6"@
    } else if d == 7 {
        "7"@
    } else if d == 8 {
        "8"@
    } else {
        "9"@
    }
}

/// The decimal notation of `n`, without leading zeros.
pub open spec fn decimal_spec(n: nat) -> Seq<char>
    decreases n,
{
    if n < 10 {
        digit_spec(n)
    } else {
        decimal_spec(n / 10) + digit_spec(n % 10)
    }
}

/// The complexity label `O(log n)` for source dimension `n`.
pub open spec fn complexity_spec(n: nat) -> Seq<char> {
    "O(log "@ + decimal_spec(n) + ")"@
}

fn digit(d: usize) -> (r: &'static str)
    requires
        d < 10,
    ensures
        r@ == digit_spec(d as nat),
{
    if d == 0 {
        "0"
    } else if d == 1 {
        "1"
    } else if d == 2 {
        "2"
    } else if d == 3 {
        "3"
    } else if d == 4 {
        "4"
    } else if d == 5 {
        "5"
    } else if d == 6 {
        "6"
    } else if d == 7 {
        "7"
    } else if d == 8 {
        "8"
    } else {
        "9"
    }
}

fn append_decimal(s: &mut String, n: usize)
    ensures
        final(s)@ == old(s)@ + decimal_spec(n as nat),
    decreases n,
{
    if n >= 10 {
        append_decimal(s, n / 10);
    }
    s.append(digit(n % 10));
    proof {
        assert(final(s)@ =~= old(s)@ + decimal_spec(n as nat));
    }
}

/// The complexity label for a projection from dimension `n`: `O(log n)` with
/// `n` in decimal.
pub fn complexity_label(n: usize) -> (r: String)
    ensures
        r@ == complexity_spec(n as nat),
{
    let mut s = String::from_str("O(log ");
    append_decimal(&mut s, n);
    s.append(")");
    proof {
        assert(s@ =~= complexity_spec(n as nat));
    }
    s
}

/// The densified matrix of an analysis request and whether it is sparse.
#[derive(Debug)]
pub struct MatrixStructure<T> {
    pub dense: DenseMatrix<T>,
    pub is_sparse: bool,
}

/// The similarity service. It keeps no state between requests.
#[derive(Debug, Default, Clone, Copy)]
pub struct SublinearServiceImpl;

impl SublinearServiceImpl {
    /// Validates a pairwise comparison of vectors of lengths `a_len` and
    /// `b_len` and gives the shape of the projector to build for it.
    /// Unequal lengths fail with `DimensionMismatch`; then a zero dimension or
    /// a distortion outside (0, 1) fails with `DegenerateInput`.
    pub fn prepare_comparison(
        &self,
        a_len: usize,
        b_len: usize,
        distortion_bits: u64,
        log_bound: usize,
    ) -> (r: Result<ProjectorShape, CoreError>)
        ensures
            a_len != b_len ==> r == Err::<ProjectorShape, CoreError>(CoreError::DimensionMismatch),
            a_len == b_len && !valid_params(a_len, distortion_bits) ==> r == Err::<
                ProjectorShape,
                CoreError,
            >(CoreError::DegenerateInput),
            a_len == b_len && valid_params(a_len, distortion_bits) ==> r == Ok::<
                ProjectorShape,
                CoreError,
            >(
                (ProjectorShape {
                    source_dimension: a_len,
                    target_dimension: target_dimension_of(log_bound),
                    distortion_bits,
                }),
            ),
    {
        match check_same_dimension(a_len, b_len) {
            Ok(()) => ProjectorShape::new(a_len, distortion_bits, log_bound),
            Err(e) => Err(e),
        }
    }

    /// Validates a similarity search of a query of length `query_len` against
    /// corpus rows of lengths `row_lens` and gives the shape of the one
    /// projector to build for it. A row whose length differs from the query's
    /// fails with `DimensionMismatch`; then a zero dimension or a distortion
    /// outside (0, 1) fails with `DegenerateInput`.
    pub fn prepare_search(
        &self,
        query_len: usize,
        row_lens: &Vec<usize>,
        distortion_bits: u64,
        log_bound: usize,
    ) -> (r: Result<ProjectorShape, CoreError>)
        ensures
            !(forall|i: int| 0 <= i < row_lens.len() ==> row_lens@[i] == query_len) ==> r == Err::<
                ProjectorShape,
                CoreError,
            >(CoreError::DimensionMismatch),
            (forall|i: int| 0 <= i < row_lens.len() ==> row_lens@[i] == query_len) && !valid_params(
                query_len,
                distortion_bits,
            ) ==> r == Err::<ProjectorShape, CoreError>(CoreError::DegenerateInput),
            (forall|i: int| 0 <= i < row_lens.len() ==> row_lens@[i] == query_len) && valid_params(
                query_len,
                distortion_bits,
            ) ==> r == Ok::<ProjectorShape, CoreError>(
                (ProjectorShape {
                    source_dimension: query_len,
                    target_dimension: target_dimension_of(log_bound),
                    distortion_bits,
                }),
            ),
    {
        match check_corpus_dimensions(query_len, row_lens) {
            Ok(()) => ProjectorShape::new(query_len, distortion_bits, log_bound),
            Err(e) => Err(e),
        }
    }

    /// The structural half of a matrix analysis: the triples densified
    /// (later triples win) and the sparsity flag, from the number of supplied
    /// entries. Fails with `ShapeError` on malformed triples and with
    /// `DegenerateInput` when `rows * cols` does not fit in memory indices.
    pub fn analyze_structure<T: Copy>(
        &self,
        rows: usize,
        cols: usize,
        row_indices: &Vec<i64>,
        col_indices: &Vec<i64>,
        values: &Vec<T>,
        zero: T,
    ) -> (r: Result<MatrixStructure<T>, CoreError>)
        ensures
            rows * cols > usize::MAX ==> r == Err::<MatrixStructure<T>, CoreError>(
                CoreError::DegenerateInput,
            ),
            rows * cols <= usize::MAX && !valid_triples(
                rows,
                cols,
                row_indices@,
                col_indices@,
                values@,
            ) ==> r == Err::<MatrixStructure<T>, CoreError>(CoreError::ShapeError),
            r is Ok <==> rows * cols <= usize::MAX && valid_triples(
                rows,
                cols,
                row_indices@,
                col_indices@,
                values@,
            ),
            r matches Ok(m) ==> {
                &&& m.dense.wf()
                &&& m.dense.rows == rows
                &&& m.dense.cols == cols
                &&& m.is_sparse == sparse_spec(values.len() as nat, rows as nat, cols as nat)
                &&& forall|i: int, j: int|
                    0 <= i < rows && 0 <= j < cols ==> #[trigger] m.dense.entry(i, j)
                        == crate::diagnostics::cell_after(
                        row_indices@,
                        col_indices@,
                        values@,
                        zero,
                        i,
                        j,
                        values.len() as int,
                    )
            },
    {
        let total = rows.checked_mul(cols);
        if total.is_none() {
            return Err(CoreError::DegenerateInput);
        }
        match densify(rows, cols, row_indices, col_indices, values, zero) {
            Ok(dense) => {
                let sparse = is_sparse(values.len(), rows, cols);
                Ok(MatrixStructure { dense, is_sparse: sparse })
            },
            Err(e) => Err(e),
        }
    }

    /// The exact solver is not implemented: the request is answered with
    /// `Unimplemented`, never with a solution.
    pub fn solve_true_sublinear<T>(&self, rhs: &Vec<T>) -> (r: Result<Vec<T>, CoreError>)
        ensures
            r == Err::<Vec<T>, CoreError>(CoreError::Unimplemented),
    {
        Err(CoreError::Unimplemented)
    }
}

} // verus!
