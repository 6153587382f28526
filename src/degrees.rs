use vstd::prelude::*;

use crate::error::RegressionError;

verus! {

/// Degrees of freedom of a fitted model.
#[derive(Debug, Clone, Copy, PartialEq, Eq, Structural)]
pub struct ModelDegrees {
    /// Residual degrees of freedom: observations minus numeric rank.
    pub dof: usize,
    /// Numerator degrees of freedom of the overall F-test.
    pub numerator_dof: usize,
    /// Divisor of the total sum of squares in the adjusted R².
    pub adjusted_dof: usize,
}

/// The degrees of freedom are positive: the residual ones and the numerator ones.
pub open spec fn degrees_valid(num_rows: nat, rank: nat, has_intercept: bool) -> bool {
    rank < num_rows && if has_intercept {
        rank >= 2
    } else {
        rank >= 1
    }
}

/// Degrees of freedom for `num_rows` observations and a design of numeric rank
/// `rank`; an intercept costs one numerator and one adjusted degree of freedom.
pub open spec fn model_degrees_spec(num_rows: nat, rank: nat, has_intercept: bool) -> ModelDegrees {
    ModelDegrees {
        dof: (num_rows - rank) as usize,
        numerator_dof: if has_intercept {
            (rank - 1) as usize
        } else {
            rank as usize
        },
        adjusted_dof: if has_intercept {
            (num_rows - 1) as usize
        } else {
            num_rows as usize
        },
    }
}

/// Computes the degrees of freedom of a model, or fails when one of them is
/// not positive (in particular when the observations do not exceed the rank).
pub fn model_degrees(num_rows: usize, rank: usize, has_intercept: bool) -> (r: Result<
    ModelDegrees,
    RegressionError,
>)
    ensures
        r is Ok <==> degrees_valid(num_rows as nat, rank as nat, has_intercept),
        r is Ok ==> r->Ok_0 == model_degrees_spec(num_rows as nat, rank as nat, has_intercept),
        r is Err ==> r->Err_0 == (RegressionError::InvalidDegreesOfFreedom {
            observations: num_rows,
            rank,
        }),
        rank >= num_rows ==> r is Err,
{
    let needed: usize = if has_intercept {
        2
    } else {
        1
    };
    if rank >= num_rows || rank < needed {
        return Err(RegressionError::InvalidDegreesOfFreedom { observations: num_rows, rank });
    }
    let numerator_dof: usize = if has_intercept {
        rank - 1
    } else {
        rank
    };
    let adjusted_dof: usize = if has_intercept {
        num_rows - 1
    } else {
        num_rows
    };
    Ok(ModelDegrees { dof: num_rows - rank, numerator_dof, adjusted_dof })
}

} // verus!
