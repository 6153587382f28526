use vstd::prelude::*;

use crate::matrix::Matrix;

verus! {

/// The capabilities the regression engine needs from a real-number type:
/// field arithmetic, a square root, comparisons against one and against a
/// tolerance, the distribution tails used for p-values, and the
/// linear-algebra kernels (inverse, Moore–Penrose pseudo-inverse, numeric
/// rank) on matrices of that type.
///
/// Each scalar operation `op` comes with a specification function `spec_op`
/// that names its result; the engine's contracts are stated over those names.
///
/// Every operation must return for every argument, including values that are
/// not numbers (a NaN statistic yields a NaN p-value) and any tolerance.
pub trait Number: Copy + Sized {
    spec fn spec_zero() -> Self;

    spec fn spec_one() -> Self;

    spec fn spec_from_usize(n: usize) -> Self;

    spec fn spec_plus(self, rhs: Self) -> Self;

    spec fn spec_minus(self, rhs: Self) -> Self;

    spec fn spec_times(self, rhs: Self) -> Self;

    spec fn spec_divided_by(self, rhs: Self) -> Self;

    spec fn spec_square_root(self) -> Self;

    spec fn spec_is_one(self) -> bool;

    spec fn spec_is_negligible(self, tolerance: Self) -> bool;

    spec fn spec_one_sided_f_test(f: Self, ndof: usize, ddof: usize) -> Self;

    spec fn spec_two_sided_t_test(t: Self, dof: usize) -> Self;

    spec fn spec_try_inverse(m: Matrix<Self>) -> Option<Matrix<Self>>;

    spec fn spec_pseudo_inverse(m: Matrix<Self>, tolerance: Self) -> Option<Matrix<Self>>;

    spec fn spec_rank(m: Matrix<Self>, tolerance: Self) -> usize;

    fn zero() -> (r: Self)
        ensures
            r == Self::spec_zero(),
    ;

    fn one() -> (r: Self)
        ensures
            r == Self::spec_one(),
    ;

    fn from_usize(n: usize) -> (r: Self)
        ensures
            r == Self::spec_from_usize(n),
    ;

    fn plus(self, rhs: Self) -> (r: Self)
        ensures
            r == self.spec_plus(rhs),
    ;

    fn minus(self, rhs: Self) -> (r: Self)
        ensures
            r == self.spec_minus(rhs),
    ;

    fn times(self, rhs: Self) -> (r: Self)
        ensures
            r == self.spec_times(rhs),
    ;

    fn divided_by(self, rhs: Self) -> (r: Self)
        ensures
            r == self.spec_divided_by(rhs),
    ;

    fn square_root(self) -> (r: Self)
        ensures
            r == self.spec_square_root(),
    ;

    /// Exact equality with one.
    fn is_one(self) -> (r: bool)
        ensures
            r == self.spec_is_one(),
    ;

    /// Whether the magnitude of `self` is at most `tolerance`.
    fn is_negligible(self, tolerance: Self) -> (r: bool)
        ensures
            r == self.spec_is_negligible(tolerance),
    ;

    /// The singular-value cutoff used when the caller names none.
    fn default_tolerance() -> Self;

    /// `1 - F_cdf(|f|)` for the F distribution with `ndof` and `ddof` degrees of freedom.
    fn one_sided_f_test(f: Self, ndof: usize, ddof: usize) -> (r: Self)
        requires
            ndof > 0,
            ddof > 0,
        ensures
            r == Self::spec_one_sided_f_test(f, ndof, ddof),
    ;

    /// `2 * (1 - T_cdf(|t|))` for Student's t distribution with `dof` degrees of freedom.
    fn two_sided_t_test(t: Self, dof: usize) -> (r: Self)
        requires
            dof > 0,
        ensures
            r == Self::spec_two_sided_t_test(t, dof),
    ;

    /// The inverse of a square matrix, or `None` when it is singular.
    fn try_inverse(m: &Matrix<Self>) -> (r: Option<Matrix<Self>>)
        requires
            m.wf(),
        ensures
            r == Self::spec_try_inverse(*m),
    ;

    /// The Moore–Penrose pseudo-inverse, with singular values up to
    /// `tolerance` treated as zero, or `None` when it cannot be computed.
    fn pseudo_inverse(m: &Matrix<Self>, tolerance: Self) -> (r: Option<Matrix<Self>>)
        requires
            m.wf(),
        ensures
            r == Self::spec_pseudo_inverse(*m, tolerance),
    ;

    /// The number of singular values of `m` above `tolerance`.
    fn rank(m: &Matrix<Self>, tolerance: Self) -> (r: usize)
        requires
            m.wf(),
        ensures
            r == Self::spec_rank(*m, tolerance),
    ;
}

} // verus!
