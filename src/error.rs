use vstd::prelude::*;

verus! {

/// Why a regression could not be carried out.
#[derive(Debug, Clone, Copy, PartialEq, Eq, Structural)]
pub enum RegressionError {
    /// A shape or an index does not fit: `expected` is the bound or size the
    /// operation needed, `found` what it was given.
    InvalidDimension { expected: usize, found: usize },
    /// `XᵗX` (or a matrix to be pseudo-inverted) could not be inverted.
    SingularMatrix,
    /// The analysed column lies (numerically) in the span of the other columns.
    RankDeficientColumn { column: usize },
    /// Every entry of another column is negligible, so the projection onto
    /// the other columns is not defined by them.
    DegenerateColumn { column: usize },
    /// The residual or the numerator degrees of freedom would not be positive.
    InvalidDegreesOfFreedom { observations: usize, rank: usize },
}

} // verus!
