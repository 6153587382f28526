use vstd::prelude::*;

use crate::algebra::{
    diagonal, difference, difference_spec, dot, dot_spec, mat_mul, mat_mul_spec, mat_vec,
    mat_vec_spec, mean, mean_spec, minus_scaled, norm_squared, plus_scaled,
    plus_scaled_spec, shifted, shifted_spec,
};
use crate::degrees::{degrees_valid, model_degrees, model_degrees_spec};
use crate::error::RegressionError;
use crate::estimate::{AddedVariable, FStatistic, LeastSquaresEstimate};
use crate::matrix::{column_of, transpose_of, without_column, Matrix};
use crate::number::Number;
use crate::regression_data::RegressionData;

verus! {

/// `x` has a first column and every entry of it is exactly one.
pub open spec fn first_column_is_one<T: Number>(x: &Matrix<T>) -> bool {
    x.ncols > 0 && forall|i: int| 0 <= i < x.nrows ==> (#[trigger] x.entry(i, 0)).spec_is_one()
}

/// The total sum of squares of `y`: about its mean with an intercept, about
/// zero without one.
pub open spec fn total_sum_of_squares<T: Number>(y: Seq<T>, has_intercept: bool) -> T {
    let centre = if has_intercept {
        mean_spec(y)
    } else {
        T::spec_zero()
    };
    dot_spec(shifted_spec(y, centre), shifted_spec(y, centre))
}

/// Whether every entry of the first column of `x` is exactly one.
pub fn has_intercept<T: Number>(x: &Matrix<T>) -> (r: bool)
    requires
        x.wf(),
    ensures
        r == first_column_is_one(x),
{
    if x.ncols == 0 {
        return false;
    }
    let mut i: usize = 0;
    while i < x.nrows
        invariant
            x.wf(),
            x.ncols > 0,
            i <= x.nrows,
            forall|k: int| 0 <= k < i ==> (#[trigger] x.entry(k, 0)).spec_is_one(),
        decreases x.nrows - i,
    {
        if !x.get(i, 0).is_one() {
            return false;
        }
        i = i + 1;
    }
    true
}

/// The matrix returned by a kernel has the shape `nrows` by `ncols`, or the
/// error that says it has not.
fn check_shape<T: Number>(m: &Matrix<T>, nrows: usize, ncols: usize) -> (r: Result<
    (),
    RegressionError,
>)
    ensures
        r is Ok <==> m.wf() && m.nrows == nrows && m.ncols == ncols,
        r is Err ==> r->Err_0 is InvalidDimension,
{
    if m.nrows != nrows || m.rows.len() != nrows {
        return Err(RegressionError::InvalidDimension { expected: nrows, found: m.rows.len() });
    }
    if m.ncols != ncols {
        return Err(RegressionError::InvalidDimension { expected: ncols, found: m.ncols });
    }
    let mut i: usize = 0;
    while i < m.rows.len()
        invariant
            m.rows@.len() == nrows,
            m.ncols == ncols,
            i <= nrows,
            forall|k: int| 0 <= k < i ==> (#[trigger] m.rows@[k])@.len() == ncols,
        decreases nrows - i,
    {
        if m.rows[i].len() != ncols {
            return Err(RegressionError::InvalidDimension { expected: ncols, found: m.rows[i].len() });
        }
        i = i + 1;
    }
    Ok(())
}

impl<T: Number> RegressionData<T> {
    /// `e` is the least-squares fit of this data through its own `(XᵗX)⁻¹`:
    /// the coefficients solve the normal equations, the residual statistics,
    /// R², adjusted R², F-test and t-tests follow from them by the usual
    /// formulas, over the degrees of freedom that `e` records.
    pub open spec fn is_fit(&self, e: LeastSquaresEstimate<T>) -> bool {
        let x = self.x@;
        let y = self.y@;
        let n = self.x.nrows;
        let p = self.x.ncols;
        let inv = e.xtx_inverse;
        let sse = dot_spec(e.residuals@, e.residuals@);
        let ssy = total_sum_of_squares(y, e.has_intercept);
        let one = T::spec_one();
        let dof = e.degrees.dof;
        let ndof = e.degrees.numerator_dof;
        &&& e.has_shape(n as nat, p as nat)
        &&& e.has_intercept == first_column_is_one(&self.x)
        &&& e.rank == T::spec_rank(self.x, self.tolerance)
        &&& e.rank <= p
        &&& degrees_valid(n as nat, e.rank as nat, e.has_intercept)
        &&& e.degrees == model_degrees_spec(n as nat, e.rank as nat, e.has_intercept)
        &&& inv.wf() && inv.nrows == p && inv.ncols == p
        &&& exists|m: Matrix<T>| #[trigger] self.is_xtx(m) && T::spec_try_inverse(m) == Some(inv)
        &&& e.coefficients@ == mat_vec_spec(
            mat_mul_spec(inv@, transpose_of(x, p as nat), n as nat),
            y,
        )
        &&& e.fitted_line@ == mat_vec_spec(x, e.coefficients@)
        &&& e.residuals@ == difference_spec(y, e.fitted_line@)
        &&& e.mean_squared_error == sse.spec_divided_by(T::spec_from_usize(dof))
        &&& e.residual_standard_error == e.mean_squared_error.spec_square_root()
        &&& e.r_squared == one.spec_minus(sse.spec_divided_by(ssy))
        &&& e.r_squared_adjusted == one.spec_minus(
            e.mean_squared_error.spec_divided_by(
                ssy.spec_divided_by(T::spec_from_usize(e.degrees.adjusted_dof)),
            ),
        )
        &&& e.f_statistic.numerator_dof == ndof
        &&& e.f_statistic.denominator_dof == dof
        &&& e.f_statistic.value == e.r_squared.spec_divided_by(one.spec_minus(e.r_squared)).spec_times(
            T::spec_from_usize(dof).spec_divided_by(T::spec_from_usize(ndof)),
        )
        &&& e.f_statistic.p_value == T::spec_one_sided_f_test(e.f_statistic.value, ndof, dof)
        &&& forall|i: int|
            0 <= i < p ==> {
                &&& #[trigger] e.standard_errors@[i] == inv.entry(
                    i,
                    i,
                ).spec_square_root().spec_times(e.residual_standard_error)
                &&& e.t_values@[i] == e.coefficients@[i].spec_divided_by(e.standard_errors@[i])
                &&& e.prob_t@[i] == T::spec_two_sided_t_test(e.t_values@[i], dof)
            }
    }

    /// `m` is a well-formed `p` by `p` matrix with the entries of `XᵗX`.
    pub open spec fn is_xtx(&self, m: Matrix<T>) -> bool {
        let p = self.x.ncols;
        &&& m.wf()
        &&& m.nrows == p
        &&& m.ncols == p
        &&& m@ == mat_mul_spec(transpose_of(self.x@, p as nat), self.x@, p as nat)
    }

    /// `x` has a column, the inverse kernel inverts every matrix with the
    /// entries of `XᵗX` into a well-formed `p` by `p` matrix, and the rank
    /// kernel answers at most `p`.
    pub open spec fn kernels_answer_fit(&self) -> bool {
        let p = self.x.ncols;
        &&& p > 0
        &&& forall|m: Matrix<T>|
            #[trigger] self.is_xtx(m) ==> {
                let inv = T::spec_try_inverse(m);
                &&& inv is Some
                &&& inv->Some_0.wf()
                &&& inv->Some_0.nrows == p
                &&& inv->Some_0.ncols == p
            }
        &&& T::spec_rank(self.x, self.tolerance) <= p
    }

    /// Regresses `y` on the columns of `x` by the normal equations.
    ///
    /// Fails with `InvalidDimension` when `x` has no column, with
    /// `SingularMatrix` when `XᵗX` cannot be inverted, and with
    /// `InvalidDegreesOfFreedom` when the residual or numerator degrees of
    /// freedom would not be positive (in particular when the observations do
    /// not exceed the numeric rank).
    ///
    /// A perfect fit is no error: the mean squared error and the standard
    /// errors are then zero, and the t-values and their p-values are whatever
    /// the scalar type's division and test functions give for a zero divisor
    /// (for double precision, infinite or NaN t-values and NaN p-values).
    /// Likewise a constant response with an intercept gives the scalar's
    /// `0 / 0` for R².
    pub fn fit_lm(&self) -> (r: Result<LeastSquaresEstimate<T>, RegressionError>)
        requires
            self.wf(),
        ensures
            self.x.ncols == 0 ==> r == Err::<LeastSquaresEstimate<T>, RegressionError>(
                RegressionError::InvalidDimension { expected: 1, found: 0 },
            ),
            r matches Ok(e) ==> self.is_fit(e),
            r matches Ok(e) ==> e.degrees.dof > 0,
            T::spec_rank(self.x, self.tolerance) >= self.x.nrows ==> r is Err,
            self.kernels_answer_fit() && T::spec_rank(self.x, self.tolerance) >= self.x.nrows ==> r
                == Err::<LeastSquaresEstimate<T>, RegressionError>(
                RegressionError::InvalidDegreesOfFreedom {
                    observations: self.x.nrows,
                    rank: T::spec_rank(self.x, self.tolerance),
                },
            ),
            self.kernels_answer_fit() && degrees_valid(
                self.x.nrows as nat,
                T::spec_rank(self.x, self.tolerance) as nat,
                first_column_is_one(&self.x),
            ) ==> r is Ok,
            self.kernels_answer_fit() && r is Err ==> r == Err::<
                LeastSquaresEstimate<T>,
                RegressionError,
            >(
                RegressionError::InvalidDegreesOfFreedom {
                    observations: self.x.nrows,
                    rank: T::spec_rank(self.x, self.tolerance),
                },
            ),
            self.x.ncols > 0 && (forall|m: Matrix<T>|
                #[trigger] self.is_xtx(m) ==> T::spec_try_inverse(m) is None) ==> r == Err::<
                LeastSquaresEstimate<T>,
                RegressionError,
            >(RegressionError::SingularMatrix),
            r == Err::<LeastSquaresEstimate<T>, RegressionError>(RegressionError::SingularMatrix)
                ==> exists|m: Matrix<T>|
                #[trigger] self.is_xtx(m) && T::spec_try_inverse(m) is None,
            r matches Err(RegressionError::InvalidDegreesOfFreedom { observations, rank })
                ==> observations == self.x.nrows && rank == T::spec_rank(self.x, self.tolerance)
                && !degrees_valid(observations as nat, rank as nat, first_column_is_one(&self.x)),
    {
        let x = &self.x;
        let y = &self.y;
        let n = x.nrows;
        let p = x.ncols;
        if p == 0 {
            return Err(RegressionError::InvalidDimension { expected: 1, found: 0 });
        }
        let intercept = has_intercept(x);

        let xt = x.transpose();
        let xtx = mat_mul(&xt, x);
        assert(self.is_xtx(xtx));
        let xtx_inverse = match T::try_inverse(&xtx) {
            Some(m) => m,
            None => return Err(RegressionError::SingularMatrix),
        };
        check_shape(&xtx_inverse, p, p)?;
        let pinv = mat_mul(&xtx_inverse, &xt);
        let coefficients = mat_vec(&pinv, y);
        let fitted_line = mat_vec(x, &coefficients);

        let rank = T::rank(x, self.tolerance);
        if rank > p {
            return Err(RegressionError::InvalidDimension { expected: p, found: rank });
        }
        let degrees = model_degrees(n, rank, intercept)?;
        let dof = degrees.dof;
        let ndof = degrees.numerator_dof;

        let residuals = difference(y, &fitted_line);
        let sse = norm_squared(&residuals);
        let mean_squared_error = sse.divided_by(T::from_usize(dof));
        let residual_standard_error = mean_squared_error.square_root();

        let y_mean = if intercept {
            mean(y)
        } else {
            T::zero()
        };
        let centred = shifted(y, y_mean);
        let ssy = norm_squared(&centred);
        let r_squared = T::one().minus(sse.divided_by(ssy));
        let r_squared_adjusted = T::one().minus(
            mean_squared_error.divided_by(ssy.divided_by(T::from_usize(degrees.adjusted_dof))),
        );

        let f_value = r_squared.divided_by(T::one().minus(r_squared)).times(
            T::from_usize(dof).divided_by(T::from_usize(ndof)),
        );
        let p_value = T::one_sided_f_test(f_value, ndof, dof);

        let variances = diagonal(&xtx_inverse);
        let mut standard_errors: Vec<T> = Vec::new();
        let mut t_values: Vec<T> = Vec::new();
        let mut prob_t: Vec<T> = Vec::new();
        let mut i: usize = 0;
        while i < p
            invariant
                xtx_inverse.wf(),
                xtx_inverse.nrows == p,
                variances@.len() == p,
                forall|k: int| 0 <= k < p ==> variances@[k] == xtx_inverse.entry(k, k),
                coefficients@.len() == p,
                dof > 0,
                i <= p,
                standard_errors@.len() == i,
                t_values@.len() == i,
                prob_t@.len() == i,
                forall|k: int|
                    0 <= k < i ==> {
                        &&& #[trigger] standard_errors@[k] == xtx_inverse.entry(
                            k,
                            k,
                        ).spec_square_root().spec_times(residual_standard_error)
                        &&& t_values@[k] == coefficients@[k].spec_divided_by(standard_errors@[k])
                        &&& prob_t@[k] == T::spec_two_sided_t_test(t_values@[k], dof)
                    },
            decreases p - i,
        {
            let se = variances[i].square_root().times(residual_standard_error);
            let t = coefficients[i].divided_by(se);
            standard_errors.push(se);
            t_values.push(t);
            prob_t.push(T::two_sided_t_test(t, dof));
            i = i + 1;
        }

        let e = LeastSquaresEstimate {
            coefficients,
            fitted_line,
            residuals,
            mean_squared_error,
            residual_standard_error,
            r_squared,
            r_squared_adjusted,
            standard_errors,
            t_values,
            prob_t,
            f_statistic: FStatistic {
                value: f_value,
                numerator_dof: ndof,
                denominator_dof: dof,
                p_value,
            },
            rank,
            has_intercept: intercept,
            degrees,
            xtx_inverse,
        };
        assert(self.is_fit(e));
        Ok(e)
    }

    /// `m` is a well-formed `n` by `p - 1` matrix with the entries of `x`
    /// without column `c`.
    pub open spec fn is_other_columns(&self, c: int, m: Matrix<T>) -> bool {
        &&& m.wf()
        &&& m.nrows == self.x.nrows
        &&& m.ncols == self.x.ncols - 1
        &&& m@ == without_column(self.x@, c, self.x.ncols as nat)
    }

    /// The pseudo-inverse kernel answers `m` with a well-formed matrix of the
    /// transposed shape.
    pub open spec fn pinv_answers(&self, m: Matrix<T>) -> bool {
        let pinv = T::spec_pseudo_inverse(m, self.tolerance);
        &&& pinv is Some
        &&& pinv->Some_0.wf()
        &&& pinv->Some_0.nrows == m.ncols
        &&& pinv->Some_0.ncols == m.nrows
    }

    /// `v` minus its projection `W · pinv · v`, where `W` is `x` without column `c`.
    pub open spec fn residualised(&self, c: int, pinv: Matrix<T>, v: Seq<T>) -> Seq<T> {
        let w = without_column(self.x@, c, self.x.ncols as nat);
        difference_spec(v, mat_vec_spec(mat_mul_spec(w, pinv@, self.x.nrows as nat), v))
    }

    /// `v` residualised through the pseudo-inverse that the kernel gives for `m`.
    pub open spec fn residualised_through(&self, c: int, m: Matrix<T>, v: Seq<T>) -> Seq<T> {
        self.residualised(c, T::spec_pseudo_inverse(m, self.tolerance)->Some_0, v)
    }

    /// Column `c` residualised through `m` has a negligible squared norm.
    pub open spec fn negligible_through(&self, c: int, m: Matrix<T>) -> bool {
        let x_tilde = self.residualised_through(c, m, column_of(self.x@, c));
        dot_spec(x_tilde, x_tilde).spec_is_negligible(self.tolerance)
    }

    /// Column `j`, another column than `c`, has only negligible entries.
    pub open spec fn is_degenerate(&self, c: int, j: int) -> bool {
        &&& 0 <= j < self.x.ncols
        &&& j != c
        &&& forall|i: int|
            0 <= i < self.x.nrows ==> (#[trigger] self.x.entry(i, j)).spec_is_negligible(
                self.tolerance,
            )
    }

    /// `j` is the first degenerate column besides `c`.
    pub open spec fn first_degenerate(&self, c: int, j: int) -> bool {
        self.is_degenerate(c, j) && forall|k: int| 0 <= k < j ==> !#[trigger] self.is_degenerate(c, k)
    }

    /// No column besides `c` is degenerate.
    pub open spec fn no_degenerate(&self, c: int) -> bool {
        forall|j: int| !#[trigger] self.is_degenerate(c, j)
    }

    /// `a` is the Frisch–Waugh–Lovell analysis of column `c`: no other column
    /// is degenerate; the column `x_i` and `y` are residualised by the
    /// projection `W · pinv(W)`, where `pinv(W)` is what the kernel answers for
    /// the other columns `W`; and the coefficient, residuals, variance
    /// inflation and correlations follow from the two residual vectors, with
    /// the mean squared error over the rank that `a` records.
    pub open spec fn is_added_variable(&self, c: int, a: AddedVariable<T>) -> bool {
        let x = self.x@;
        let y = self.y@;
        let n = self.x.nrows;
        let p = self.x.ncols;
        let x_i = column_of(x, c);
        let v_simple = dot_spec(a.x_tilde@, a.x_tilde@);
        let centred = shifted_spec(x_i, mean_spec(x_i));
        let residuals = a.residuals_spec();
        let mse = dot_spec(residuals, residuals).spec_divided_by(
            T::spec_from_usize((n - a.rank) as usize),
        );
        let t_squared = a.coefficient.spec_times(a.coefficient).spec_divided_by(
            mse,
        ).spec_divided_by(dot_spec(x_i, x_i));
        &&& a.column == c
        &&& a.has_shape(n as nat)
        &&& self.no_degenerate(c)
        &&& exists|m: Matrix<T>|
            {
                &&& #[trigger] self.is_other_columns(c, m)
                &&& self.pinv_answers(m)
                &&& a.x_tilde@ == self.residualised_through(c, m, x_i)
                &&& a.y_tilde@ == self.residualised_through(c, m, y)
            }
        &&& a.rank == T::spec_rank(self.x, self.tolerance)
        &&& !v_simple.spec_is_negligible(self.tolerance)
        &&& a.coefficient == dot_spec(y, a.x_tilde@).spec_divided_by(v_simple)
        &&& a.partial_residual@ == plus_scaled_spec(residuals, a.coefficient, x_i)
        &&& a.variance_inflation_factor == dot_spec(centred, centred).spec_divided_by(v_simple)
        &&& a.rank < n
        &&& a.standard_error == mse.spec_divided_by(v_simple).spec_square_root()
        &&& a.squared_correlation_prp == t_squared.spec_times(a.variance_inflation_factor)
        &&& a.squared_correlation_avp == a.squared_correlation_prp.spec_divided_by(
            T::spec_from_usize(n).spec_minus(T::spec_from_usize(p)).spec_plus(
                a.squared_correlation_prp,
            ),
        )
    }

    /// Some analysis of column `c` meets [`Self::is_added_variable`].
    pub open spec fn analysis_succeeds(&self, c: int) -> bool {
        exists|a: AddedVariable<T>| #[trigger] self.is_added_variable(c, a)
    }

    /// Column `c` exists, no other column is degenerate, the pseudo-inverse
    /// kernel answers every matrix of the other columns with a well-formed
    /// matrix of the transposed shape through which the column is not
    /// negligible, and the rank kernel answers less than the number of
    /// observations.
    pub open spec fn kernels_answer_analysis(&self, c: int) -> bool {
        &&& 0 <= c < self.x.ncols
        &&& self.no_degenerate(c)
        &&& forall|m: Matrix<T>|
            #[trigger] self.is_other_columns(c, m) ==> self.pinv_answers(m)
                && !self.negligible_through(c, m)
        &&& T::spec_rank(self.x, self.tolerance) < self.x.nrows
    }

    /// `e` is the error that the analysis of column `i`, an index in range,
    /// returns: the first degenerate other column; else `SingularMatrix` when
    /// the pseudo-inverse kernel does not answer; else `RankDeficientColumn`
    /// for `i` when the residualised column is negligible; else
    /// `InvalidDegreesOfFreedom` when the rank reaches the observations.
    pub open spec fn analysis_fails_with(&self, i: int, e: RegressionError) -> bool {
        match e {
            RegressionError::InvalidDimension { .. } => false,
            RegressionError::DegenerateColumn { column } => self.first_degenerate(i, column as int),
            RegressionError::SingularMatrix => self.no_degenerate(i) && exists|m: Matrix<T>|
                #[trigger] self.is_other_columns(i, m) && !self.pinv_answers(m),
            RegressionError::RankDeficientColumn { column } => column == i && self.no_degenerate(i)
                && exists|m: Matrix<T>|
                #[trigger] self.is_other_columns(i, m) && self.pinv_answers(m)
                    && self.negligible_through(i, m),
            RegressionError::InvalidDegreesOfFreedom { observations, rank } => self.no_degenerate(i)
                && observations == self.x.nrows && rank == T::spec_rank(self.x, self.tolerance)
                && rank >= observations && exists|m: Matrix<T>|
                #[trigger] self.is_other_columns(i, m) && self.pinv_answers(m)
                    && !self.negligible_through(i, m),
        }
    }

    /// Whether every entry of column `j` is negligible.
    fn column_is_negligible(&self, j: usize) -> (r: bool)
        requires
            self.wf(),
            j < self.x.ncols,
        ensures
            r == forall|i: int|
                0 <= i < self.x.nrows ==> (#[trigger] self.x.entry(i, j as int)).spec_is_negligible(
                    self.tolerance,
                ),
    {
        let mut i: usize = 0;
        while i < self.x.nrows
            invariant
                self.wf(),
                j < self.x.ncols,
                i <= self.x.nrows,
                forall|k: int|
                    0 <= k < i ==> (#[trigger] self.x.entry(k, j as int)).spec_is_negligible(
                        self.tolerance,
                    ),
            decreases self.x.nrows - i,
        {
            if !self.x.get(i, j).is_negligible(self.tolerance) {
                return false;
            }
            i = i + 1;
        }
        true
    }

    /// The added-variable (partial regression) analysis of column `column`.
    ///
    /// Fails with `InvalidDimension` when `column` is not a column of `x`; with
    /// `DegenerateColumn`, naming the first one, when another column has only
    /// negligible entries; with `SingularMatrix` when the pseudo-inverse of
    /// the other columns cannot be computed; with `RankDeficientColumn` when
    /// the residualised column is negligible (the column lies in the span of
    /// the others, as an identical column does); and with
    /// `InvalidDegreesOfFreedom` when the observations do not exceed the rank.
    pub fn added_variable_analysis(&self, column: usize) -> (r: Result<
        AddedVariable<T>,
        RegressionError,
    >)
        requires
            self.wf(),
        ensures
            column >= self.x.ncols <==> r == Err::<AddedVariable<T>, RegressionError>(
                RegressionError::InvalidDimension { expected: self.x.ncols, found: column },
            ),
            r matches Ok(a) ==> self.is_added_variable(column as int, a),
            r matches Err(e) ==> (column < self.x.ncols ==> self.analysis_fails_with(
                column as int,
                e,
            )),
            self.kernels_answer_analysis(column as int) ==> r is Ok,
            forall|j: int|
                column < self.x.ncols && #[trigger] self.first_degenerate(column as int, j) ==> r == Err::<
                    AddedVariable<T>,
                    RegressionError,
                >(RegressionError::DegenerateColumn { column: j as usize }),
            column < self.x.ncols && self.no_degenerate(column as int) && (forall|m: Matrix<T>|
                #[trigger] self.is_other_columns(column as int, m) ==> !self.pinv_answers(m))
                ==> r == Err::<AddedVariable<T>, RegressionError>(RegressionError::SingularMatrix),
            column < self.x.ncols && self.no_degenerate(column as int) && (forall|m: Matrix<T>|
                #[trigger] self.is_other_columns(column as int, m) ==> self.pinv_answers(m)
                    && self.negligible_through(column as int, m)) ==> r == Err::<
                AddedVariable<T>,
                RegressionError,
            >(RegressionError::RankDeficientColumn { column }),
            column < self.x.ncols && self.no_degenerate(column as int) && (forall|m: Matrix<T>|
                #[trigger] self.is_other_columns(column as int, m) ==> self.pinv_answers(m)
                    && !self.negligible_through(column as int, m)) && T::spec_rank(
                self.x,
                self.tolerance,
            ) >= self.x.nrows ==> r == Err::<AddedVariable<T>, RegressionError>(
                RegressionError::InvalidDegreesOfFreedom {
                    observations: self.x.nrows,
                    rank: T::spec_rank(self.x, self.tolerance),
                },
            ),
    {
        let x = &self.x;
        let y = &self.y;
        let n = x.nrows;
        let p = x.ncols;
        if column >= p {
            return Err(RegressionError::InvalidDimension { expected: p, found: column });
        }
        let mut j: usize = 0;
        while j < p
            invariant
                self.wf(),
                p == self.x.ncols,
                column < p,
                j <= p,
                forall|k: int| 0 <= k < j ==> !#[trigger] self.is_degenerate(column as int, k),
            decreases p - j,
        {
            if j != column && self.column_is_negligible(j) {
                assert(self.first_degenerate(column as int, j as int));
                assert forall|k: int| #[trigger]
                    self.first_degenerate(column as int, k) implies k == j by {
                    if k < j {
                        assert(!self.is_degenerate(column as int, k));
                    } else if k > j {
                        assert(self.is_degenerate(column as int, j as int));
                    }
                }
                return Err(RegressionError::DegenerateColumn { column: j });
            }
            assert(!self.is_degenerate(column as int, j as int));
            j = j + 1;
        }
        assert(self.no_degenerate(column as int));
        let x_i = x.column(column);
        let w = x.remove_column(column);
        assert(self.is_other_columns(column as int, w));
        let w_pinv = match T::pseudo_inverse(&w, self.tolerance) {
            Some(m) => m,
            None => {
                assert(!self.pinv_answers(w));
                return Err(RegressionError::SingularMatrix);
            },
        };
        if check_shape(&w_pinv, p - 1, n).is_err() {
            assert(!self.pinv_answers(w));
            return Err(RegressionError::SingularMatrix);
        }
        assert(self.pinv_answers(w));
        let projection = mat_mul(&w, &w_pinv);

        let x_tilde = difference(&x_i, &mat_vec(&projection, &x_i));
        let y_tilde = difference(y, &mat_vec(&projection, y));
        assert(x_tilde@ == self.residualised_through(column as int, w, x_i@));
        assert(y_tilde@ == self.residualised_through(column as int, w, y@));

        let v_simple = norm_squared(&x_tilde);
        if v_simple.is_negligible(self.tolerance) {
            assert(self.negligible_through(column as int, w));
            return Err(RegressionError::RankDeficientColumn { column });
        }
        assert(!self.negligible_through(column as int, w));
        let v_top = norm_squared(&shifted(&x_i, mean(&x_i)));
        let variance_inflation_factor = v_top.divided_by(v_simple);

        let coefficient = dot(y, &x_tilde).divided_by(v_simple);
        let residuals = minus_scaled(&y_tilde, coefficient, &x_tilde);
        let partial_residual = plus_scaled(&residuals, coefficient, &x_i);

        let rank = T::rank(x, self.tolerance);
        if rank >= n {
            return Err(RegressionError::InvalidDegreesOfFreedom { observations: n, rank });
        }
        let sse = norm_squared(&residuals);
        let mean_squared_error = sse.divided_by(T::from_usize(n - rank));
        let standard_error = mean_squared_error.divided_by(v_simple).square_root();

        let t_squared = coefficient.times(coefficient).divided_by(mean_squared_error).divided_by(
            norm_squared(&x_i),
        );
        let squared_correlation_prp = t_squared.times(variance_inflation_factor);
        let squared_correlation_avp = squared_correlation_prp.divided_by(
            T::from_usize(n).minus(T::from_usize(p)).plus(squared_correlation_prp),
        );

        let a = AddedVariable {
            column,
            coefficient,
            x_tilde,
            y_tilde,
            partial_residual,
            squared_correlation_prp,
            squared_correlation_avp,
            variance_inflation_factor,
            standard_error,
            rank,
        };
        assert(self.is_added_variable(column as int, a));
        Ok(a)
    }

    /// The analysis of every column, in column order, each entry the analysis
    /// of its column; on failure, the error of the first column whose
    /// analysis fails.
    pub fn added_variable_analysis_all(&self) -> (r: Result<
        Vec<AddedVariable<T>>,
        RegressionError,
    >)
        requires
            self.wf(),
        ensures
            r matches Ok(all) ==> all@.len() == self.x.ncols && forall|i: int|
                0 <= i < self.x.ncols ==> self.is_added_variable(i, #[trigger] all@[i]),
            r matches Err(e) ==> exists|i: int|
                0 <= i < self.x.ncols && #[trigger] self.analysis_fails_with(i, e) && forall|k: int|
                    0 <= k < i ==> #[trigger] self.analysis_succeeds(k),
            (forall|i: int| 0 <= i < self.x.ncols ==> #[trigger] self.kernels_answer_analysis(i))
                ==> r is Ok,
    {
        let mut out: Vec<AddedVariable<T>> = Vec::new();
        let mut i: usize = 0;
        while i < self.x.ncols
            invariant
                self.wf(),
                i <= self.x.ncols,
                out@.len() == i,
                forall|k: int| 0 <= k < i ==> self.is_added_variable(k, #[trigger] out@[k]),
            decreases self.x.ncols - i,
        {
            match self.added_variable_analysis(i) {
                Ok(a) => out.push(a),
                Err(e) => {
                    assert(self.analysis_fails_with(i as int, e));
                    assert(!self.kernels_answer_analysis(i as int));
                    assert forall|k: int| 0 <= k < i implies #[trigger] self.analysis_succeeds(k) by {
                        assert(self.is_added_variable(k, out@[k]));
                    }
                    return Err(e);
                },
            }
            i = i + 1;
        }
        Ok(out)
    }
}

} // verus!
