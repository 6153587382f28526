use vstd::prelude::*;

use crate::algebra::{dot, dot_spec, minus_scaled, minus_scaled_spec};
use crate::degrees::ModelDegrees;
use crate::matrix::Matrix;
use crate::number::Number;

verus! {

/// The overall F-test of a fitted model.
#[derive(Debug, Clone, Copy)]
pub struct FStatistic<T> {
    pub value: T,
    pub numerator_dof: usize,
    pub denominator_dof: usize,
    pub p_value: T,
}

/// The least-squares fit of `y` on the columns of `x`.
#[derive(Debug)]
pub struct LeastSquaresEstimate<T> {
    /// One coefficient per column of `x`.
    pub coefficients: Vec<T>,
    /// `x · coefficients`, one entry per observation.
    pub fitted_line: Vec<T>,
    /// `y - fitted_line`.
    pub residuals: Vec<T>,
    /// The sum of squared residuals over the residual degrees of freedom.
    pub mean_squared_error: T,
    /// The square root of `mean_squared_error`.
    pub residual_standard_error: T,
    pub r_squared: T,
    /// May be negative.
    pub r_squared_adjusted: T,
    pub standard_errors: Vec<T>,
    /// `coefficients[i] / standard_errors[i]`.
    pub t_values: Vec<T>,
    /// Two-sided p-value of each t-value.
    pub prob_t: Vec<T>,
    pub f_statistic: FStatistic<T>,
    /// Numeric rank of `x` under the tolerance of the data.
    pub rank: usize,
    /// Whether the first column of `x` is exactly the constant one.
    pub has_intercept: bool,
    pub degrees: ModelDegrees,
    /// `(XᵗX)⁻¹`, the unscaled covariance of the coefficients.
    pub xtx_inverse: Matrix<T>,
}

impl<T: Number> LeastSquaresEstimate<T> {
    /// The fitted value `coefficients · new_x` at a new observation.
    pub fn predict(&self, new_x: &Vec<T>) -> (r: T)
        requires
            new_x@.len() == self.coefficients@.len(),
        ensures
            r == dot_spec(self.coefficients@, new_x@),
    {
        dot(&self.coefficients, new_x)
    }
}

impl<T> LeastSquaresEstimate<T> {
    /// The vectors have the lengths of a fit with `n` observations and `p` columns.
    pub open spec fn has_shape(&self, n: nat, p: nat) -> bool {
        &&& self.coefficients@.len() == p
        &&& self.standard_errors@.len() == p
        &&& self.t_values@.len() == p
        &&& self.prob_t@.len() == p
        &&& self.fitted_line@.len() == n
        &&& self.residuals@.len() == n
    }
}

/// The added-variable (partial regression) analysis of one column.
#[derive(Debug)]
pub struct AddedVariable<T> {
    /// The analysed column.
    pub column: usize,
    /// The coefficient of the column in the full regression.
    pub coefficient: T,
    /// The column minus its projection onto the span of the other columns.
    pub x_tilde: Vec<T>,
    /// `y` minus its projection onto the span of the other columns.
    pub y_tilde: Vec<T>,
    /// `residuals() + coefficient · x_i`.
    pub partial_residual: Vec<T>,
    pub squared_correlation_prp: T,
    pub squared_correlation_avp: T,
    /// The centred sum of squares of the column over that of `x_tilde`.
    pub variance_inflation_factor: T,
    /// The standard error of `coefficient` in the full model.
    pub standard_error: T,
    /// Numeric rank of `x` under the tolerance of the data.
    pub rank: usize,
}

impl<T> AddedVariable<T> {
    /// The vectors have one entry per observation.
    pub open spec fn has_shape(&self, n: nat) -> bool {
        &&& self.x_tilde@.len() == n
        &&& self.y_tilde@.len() == n
        &&& self.partial_residual@.len() == n
    }
}

impl<T: Number> AddedVariable<T> {
    /// `y_tilde - coefficient · x_tilde`.
    pub open spec fn residuals_spec(&self) -> Seq<T> {
        minus_scaled_spec(self.y_tilde@, self.coefficient, self.x_tilde@)
    }

    /// The residuals of the full model, recovered from the two partial
    /// regression residual vectors.
    pub fn residuals(&self) -> (r: Vec<T>)
        requires
            self.x_tilde@.len() == self.y_tilde@.len(),
        ensures
            r@ == self.residuals_spec(),
    {
        minus_scaled(&self.y_tilde, self.coefficient, &self.x_tilde)
    }
}

} // verus!
