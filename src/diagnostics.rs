//! Structural diagnostics of a matrix given as sparse triples: validation and
//! densification of the triples, the sparsity rule, and the decision table
//! that picks a solution strategy.
use vstd::prelude::*;

use crate::error::CoreError;

verus! {

/// A supplied triple lies inside a `rows` by `cols` matrix.
pub open spec fn in_bounds(rows: usize, cols: usize, r: i64, c: i64) -> bool {
    0 <= r < rows && 0 <= c < cols
}

/// The triples are well formed: three sequences of one length, every index in bounds.
pub open spec fn valid_triples<T>(
    rows: usize,
    cols: usize,
    row_indices: Seq<i64>,
    col_indices: Seq<i64>,
    values: Seq<T>,
) -> bool {
    &&& row_indices.len() == values.len()
    &&& col_indices.len() == values.len()
    &&& forall|k: int| 0 <= k < values.len() ==> in_bounds(rows, cols, row_indices[k], col_indices[k])
}

/// Entry `(r, c)` after the first `upto` triples were written in order: the
/// value of the last of them that names `(r, c)`, or `zero` if none does.
pub open spec fn cell_after<T>(
    row_indices: Seq<i64>,
    col_indices: Seq<i64>,
    values: Seq<T>,
    zero: T,
    r: int,
    c: int,
    upto: int,
) -> T
    decreases upto,
{
    if upto <= 0 {
        zero
    } else if row_indices[upto - 1] == r && col_indices[upto - 1] == c {
        values[upto - 1]
    } else {
        cell_after(row_indices, col_indices, values, zero, r, c, upto - 1)
    }
}

/// Entry `(i, j)` of a matrix with `cols` columns stored row by row in `data`.
pub open spec fn dense_at<T>(data: Seq<T>, cols: int, i: int, j: int) -> T {
    data[i * cols + j]
}

/// A dense `rows` by `cols` matrix, stored row by row.
#[derive(Debug)]
pub struct DenseMatrix<T> {
    pub rows: usize,
    pub cols: usize,
    pub data: Vec<T>,
}

impl<T: Copy> DenseMatrix<T> {
    pub open spec fn wf(&self) -> bool {
        self.data.len() == self.rows * self.cols
    }

    /// Entry `(i, j)` of the matrix.
    pub open spec fn entry(&self, i: int, j: int) -> T {
        dense_at(self.data@, self.cols as int, i, j)
    }

    /// Reads entry `(i, j)`.
    pub fn get(&self, i: usize, j: usize) -> (r: T)
        requires
            self.wf(),
            i < self.rows,
            j < self.cols,
        ensures
            r == self.entry(i as int, j as int),
    {
        proof {
            lemma_index_in_range(i as int, j as int, self.rows as int, self.cols as int);
        }
        self.data[i * self.cols + j]
    }

    /// The matrix is square.
    pub fn is_square(&self) -> (r: bool)
        ensures
            r == (self.rows == self.cols),
    {
        self.rows == self.cols
    }
}

proof fn lemma_index_in_range(i: int, j: int, rows: int, cols: int)
    requires
        0 <= i < rows,
        0 <= j < cols,
    ensures
        0 <= i * cols + j < rows * cols,
{
    assert(0 <= i * cols + j < rows * cols) by (nonlinear_arith)
        requires
            0 <= i < rows,
            0 <= j < cols,
    ;
}

/// Turns sparse triples into a dense `rows` by `cols` matrix filled with
/// `zero`; where two triples name one entry, the later one wins.
/// Fails with `ShapeError` when the three sequences differ in length or an
/// index lies outside the matrix.
pub fn densify<T: Copy>(
    rows: usize,
    cols: usize,
    row_indices: &Vec<i64>,
    col_indices: &Vec<i64>,
    values: &Vec<T>,
    zero: T,
) -> (r: Result<DenseMatrix<T>, CoreError>)
    requires
        rows * cols <= usize::MAX,
    ensures
        r is Ok <==> valid_triples(rows, cols, row_indices@, col_indices@, values@),
        r is Err ==> r == Err::<DenseMatrix<T>, CoreError>(CoreError::ShapeError),
        r matches Ok(m) ==> {
            &&& m.wf()
            &&& m.rows == rows
            &&& m.cols == cols
            &&& forall|i: int, j: int|
                0 <= i < rows && 0 <= j < cols ==> #[trigger] m.entry(i, j) == cell_after(
                    row_indices@,
                    col_indices@,
                    values@,
                    zero,
                    i,
                    j,
                    values.len() as int,
                )
        },
{
    let nnz = values.len();
    if row_indices.len() != nnz || col_indices.len() != nnz {
        return Err(CoreError::ShapeError);
    }
    let mut k: usize = 0;
    while k < nnz
        invariant
            k <= nnz,
            nnz == values.len(),
            row_indices.len() == nnz,
            col_indices.len() == nnz,
            forall|q: int| 0 <= q < k ==> in_bounds(rows, cols, row_indices@[q], col_indices@[q]),
        decreases nnz - k,
    {
        let ri = row_indices[k];
        let ci = col_indices[k];
        if ri < 0 || ri as u64 >= rows as u64 || ci < 0 || ci as u64 >= cols as u64 {
            return Err(CoreError::ShapeError);
        }
        k += 1;
    }
    let total = rows * cols;
    let mut data: Vec<T> = Vec::new();
    let mut t: usize = 0;
    while t < total
        invariant
            t <= total,
            data@ =~= Seq::new(t as nat, |x: int| zero),
        decreases total - t,
    {
        data.push(zero);
        t += 1;
    }
    assert forall|i: int, j: int| 0 <= i < rows && 0 <= j < cols implies #[trigger] dense_at(
        data@,
        cols as int,
        i,
        j,
    ) == cell_after(row_indices@, col_indices@, values@, zero, i, j, 0) by {
        lemma_index_in_range(i, j, rows as int, cols as int);
    }
    let mut k: usize = 0;
    while k < nnz
        invariant
            k <= nnz,
            nnz == values.len(),
            row_indices.len() == nnz,
            col_indices.len() == nnz,
            total == rows * cols,
            data.len() == total,
            valid_triples(rows, cols, row_indices@, col_indices@, values@),
            forall|i: int, j: int|
                0 <= i < rows && 0 <= j < cols ==> #[trigger] dense_at(data@, cols as int, i, j) == cell_after(
                    row_indices@,
                    col_indices@,
                    values@,
                    zero,
                    i,
                    j,
                    k as int,
                ),
        decreases nnz - k,
    {
        let ri = row_indices[k] as usize;
        let ci = col_indices[k] as usize;
        proof {
            lemma_index_in_range(ri as int, ci as int, rows as int, cols as int);
        }
        let ghost before = data@;
        data.set(ri * cols + ci, values[k]);
        let ghost next = k + 1;
        assert forall|i: int, j: int| 0 <= i < rows && 0 <= j < cols implies #[trigger] dense_at(data@, cols as int, i, j)
            == cell_after(row_indices@, col_indices@, values@, zero, i, j, next) by {
            lemma_index_in_range(i, j, rows as int, cols as int);
            assert(dense_at(before, cols as int, i, j) == cell_after(row_indices@, col_indices@, values@, zero, i, j, k as int));
            if i != ri as int || j != ci as int {
                lemma_index_distinct(i, j, ri as int, ci as int, cols as int);
            }
        }
        k += 1;
    }
    let m = DenseMatrix { rows, cols, data };
    assert forall|i: int, j: int| 0 <= i < rows && 0 <= j < cols implies #[trigger] m.entry(i, j)
        == cell_after(row_indices@, col_indices@, values@, zero, i, j, values.len() as int) by {}
    Ok(m)
}

proof fn lemma_index_distinct(i: int, j: int, a: int, b: int, cols: int)
    requires
        0 <= j < cols,
        0 <= b < cols,
        i != a || j != b,
    ensures
        i * cols + j != a * cols + b,
{
    if i == a {
    } else {
        assert(i * cols + j != a * cols + b) by (nonlinear_arith)
            requires
                0 <= j < cols,
                0 <= b < cols,
                i != a,
        ;
    }
}

/// A matrix is sparse when fewer than a third of its entries were supplied.
pub open spec fn sparse_spec(supplied: nat, rows: nat, cols: nat) -> bool {
    3 * supplied < rows * cols
}

/// Whether `supplied` explicit entries make a `rows` by `cols` matrix sparse:
/// fewer than one third of `rows * cols`.
pub fn is_sparse(supplied: usize, rows: usize, cols: usize) -> (r: bool)
    ensures
        r == sparse_spec(supplied as nat, rows as nat, cols as nat),
{
    proof {
        assert((rows as int) * (cols as int) <= (u64::MAX as int) * (u64::MAX as int)) by (nonlinear_arith)
            requires
                rows as int <= u64::MAX as int,
                cols as int <= u64::MAX as int,
                rows >= 0,
                cols >= 0,
        ;
    }
    (supplied as u128) * 3 < (rows as u128) * (cols as u128)
}

/// A solution strategy for a linear system.
#[derive(Debug, Clone, Copy, PartialEq, Eq, Structural)]
pub enum SolveMethod {
    Neumann,
    ForwardPush,
    Direct,
}

/// The decision table: Neumann series for a diagonally dominant matrix, else
/// forward push for a sparse one, else a direct method.
pub open spec fn recommend_spec(diagonally_dominant: bool, sparse: bool) -> SolveMethod {
    if diagonally_dominant {
        SolveMethod::Neumann
    } else if sparse {
        SolveMethod::ForwardPush
    } else {
        SolveMethod::Direct
    }
}

impl SolveMethod {
    /// Picks the strategy for a matrix with the given properties.
    pub fn recommend(diagonally_dominant: bool, sparse: bool) -> (r: SolveMethod)
        ensures
            r == recommend_spec(diagonally_dominant, sparse),
    {
        if diagonally_dominant {
            SolveMethod::Neumann
        } else if sparse {
            SolveMethod::ForwardPush
        } else {
            SolveMethod::Direct
        }
    }

    pub open spec fn label_spec(self) -> Seq<char> {
        match self {
            SolveMethod::Neumann => "neumann"@,
            SolveMethod::ForwardPush => "forward-push"@,
            SolveMethod::Direct => "direct"@,
        }
    }

    /// The label under which the strategy is reported.
    pub fn label(&self) -> (r: String)
        ensures
            r@ == self.label_spec(),
    {
        match self {
            SolveMethod::Neumann => String::from_str("neumann"),
            SolveMethod::ForwardPush => String::from_str("forward-push"),
            SolveMethod::Direct => String::from_str("direct"),
        }
    }
}

} // verus!
