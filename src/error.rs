use vstd::prelude::*;

verus! {

/// Caller input errors, detected before any numeric work.
#[derive(Debug, Clone, Copy, PartialEq, Eq, Structural)]
pub enum CoreError {
    /// Operand lengths or shapes disagree.
    DimensionMismatch,
    /// A parameter lies outside its valid domain.
    DegenerateInput,
    /// A sparse-triple matrix is malformed.
    ShapeError,
    /// The operation is not implemented, so no result can be reported.
    Unimplemented,
}

} // verus!
