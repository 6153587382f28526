use machlina::degrees::{model_degrees, ModelDegrees};
use machlina::error::RegressionError;
use machlina::estimate::LeastSquaresEstimate;
use machlina::matrix::Matrix;
use machlina::number::Number;
use machlina::regression_data::RegressionData;
use machlina::summary::fmt_number;
use nalgebra::DMatrix;
use statrs::distribution::{ContinuousCDF, FisherSnedecor, StudentsT};

/// Double-precision numbers backed by nalgebra and statrs.
#[derive(Debug, Clone, Copy, PartialEq)]
struct Real(f64);

fn to_dense(m: &Matrix<Real>) -> DMatrix<f64> {
    DMatrix::from_fn(m.nrows, m.ncols, |i, j| m.rows[i][j].0)
}

fn from_dense(m: &DMatrix<f64>) -> Matrix<Real> {
    let rows = (0..m.nrows())
        .map(|i| (0..m.ncols()).map(|j| Real(m[(i, j)])).collect())
        .collect();
    Matrix { nrows: m.nrows(), ncols: m.ncols(), rows }
}

impl Number for Real {
    fn spec_zero() -> Self {
        Self::zero()
    }
    fn spec_one() -> Self {
        Self::one()
    }
    fn spec_from_usize(n: usize) -> Self {
        Self::from_usize(n)
    }
    fn spec_plus(self, rhs: Self) -> Self {
        self.plus(rhs)
    }
    fn spec_minus(self, rhs: Self) -> Self {
        self.minus(rhs)
    }
    fn spec_times(self, rhs: Self) -> Self {
        self.times(rhs)
    }
    fn spec_divided_by(self, rhs: Self) -> Self {
        self.divided_by(rhs)
    }
    fn spec_square_root(self) -> Self {
        self.square_root()
    }
    fn spec_is_one(self) -> bool {
        self.is_one()
    }
    fn spec_is_negligible(self, tolerance: Self) -> bool {
        self.is_negligible(tolerance)
    }
    fn spec_one_sided_f_test(f: Self, ndof: usize, ddof: usize) -> Self {
        Self::one_sided_f_test(f, ndof, ddof)
    }
    fn spec_two_sided_t_test(t: Self, dof: usize) -> Self {
        Self::two_sided_t_test(t, dof)
    }
    fn spec_try_inverse(m: Matrix<Self>) -> Option<Matrix<Self>> {
        Self::try_inverse(&m)
    }
    fn spec_pseudo_inverse(m: Matrix<Self>, tolerance: Self) -> Option<Matrix<Self>> {
        Self::pseudo_inverse(&m, tolerance)
    }
    fn spec_rank(m: Matrix<Self>, tolerance: Self) -> usize {
        Self::rank(&m, tolerance)
    }
    fn zero() -> Self {
        Real(0.0)
    }
    fn one() -> Self {
        Real(1.0)
    }
    fn from_usize(n: usize) -> Self {
        Real(n as f64)
    }
    fn plus(self, rhs: Self) -> Self {
        Real(self.0 + rhs.0)
    }
    fn minus(self, rhs: Self) -> Self {
        Real(self.0 - rhs.0)
    }
    fn times(self, rhs: Self) -> Self {
        Real(self.0 * rhs.0)
    }
    fn divided_by(self, rhs: Self) -> Self {
        Real(self.0 / rhs.0)
    }
    fn square_root(self) -> Self {
        Real(self.0.sqrt())
    }
    fn is_one(self) -> bool {
        self.0 == 1.0
    }
    fn is_negligible(self, tolerance: Self) -> bool {
        self.0.abs() <= tolerance.0
    }
    fn default_tolerance() -> Self {
        Real(1e-12)
    }
    fn one_sided_f_test(f: Self, ndof: usize, ddof: usize) -> Self {
        if f.0.is_nan() {
            return Real(f64::NAN);
        }
        let dist = FisherSnedecor::new(ndof as f64, ddof as f64).unwrap();
        Real(1.0 - dist.cdf(f.0.abs()))
    }
    fn two_sided_t_test(t: Self, dof: usize) -> Self {
        if t.0.is_nan() {
            return Real(f64::NAN);
        }
        let dist = StudentsT::new(0.0, 1.0, dof as f64).unwrap();
        Real(2.0 * (1.0 - dist.cdf(t.0.abs())))
    }
    fn try_inverse(m: &Matrix<Self>) -> Option<Matrix<Self>> {
        if m.nrows != m.ncols {
            return None;
        }
        to_dense(m).try_inverse().map(|inv| from_dense(&inv))
    }
    fn pseudo_inverse(m: &Matrix<Self>, tolerance: Self) -> Option<Matrix<Self>> {
        if !(tolerance.0 >= 0.0) {
            return None;
        }
        if m.nrows == 0 || m.ncols == 0 {
            return Some(from_dense(&DMatrix::zeros(m.ncols, m.nrows)));
        }
        to_dense(m).pseudo_inverse(tolerance.0).ok().map(|p| from_dense(&p))
    }
    fn rank(m: &Matrix<Self>, tolerance: Self) -> usize {
        // nalgebra asserts a non-negative tolerance; a negative or NaN one counts no singular value.
        if m.nrows == 0 || m.ncols == 0 || !(tolerance.0 >= 0.0) {
            return 0;
        }
        to_dense(m).rank(tolerance.0)
    }
}

fn matrix(rows: &[&[f64]]) -> Matrix<Real> {
    let ncols = rows.first().map(|r| r.len()).unwrap_or(0);
    let rows = rows.iter().map(|r| r.iter().map(|v| Real(*v)).collect()).collect();
    Matrix::from_rows(ncols, rows).unwrap()
}

fn vector(v: &[f64]) -> Vec<Real> {
    v.iter().map(|x| Real(*x)).collect()
}

fn demo_x() -> Matrix<Real> {
    matrix(&[
        &[10.0, 15.0],
        &[9.0, 14.0],
        &[9.0, 13.0],
        &[11.0, 15.0],
        &[11.0, 14.0],
        &[10.0, 14.0],
        &[10.0, 16.0],
        &[12.0, 13.0],
    ])
}

fn demo_y() -> Vec<Real> {
    vector(&[82.0, 79.0, 74.0, 83.0, 80.0, 81.0, 84.0, 81.0])
}

fn close(a: f64, b: f64, rel: f64) -> bool {
    (a - b).abs() <= rel * (1.0 + a.abs().max(b.abs()))
}

fn sum_squares(v: &[Real]) -> f64 {
    v.iter().map(|r| r.0 * r.0).sum()
}

fn fit(data: &RegressionData<Real>) -> LeastSquaresEstimate<Real> {
    data.fit_lm().unwrap()
}

#[test]
fn demo_without_intercept_matches_closed_form() {
    let data = RegressionData::from_data_without_reference(demo_x(), demo_y()).unwrap();
    let lm = fit(&data);
    // XᵗX = [[848, 1168], [1168, 1632]], Xᵗy = [6612, 9194], det = 19712.
    let b1 = 52192.0 / 19712.0;
    let b2 = 73696.0 / 19712.0;
    assert!(close(lm.coefficients[0].0, b1, 1e-8));
    assert!(close(lm.coefficients[1].0, b2, 1e-8));
    assert!(!lm.has_intercept);
    assert_eq!(lm.rank, 2);
    assert_eq!(lm.f_statistic.denominator_dof, 6);
    assert_eq!(lm.f_statistic.numerator_dof, 2);
    let sse = sum_squares(&lm.residuals);
    assert!(close(lm.mean_squared_error.0, sse / 6.0, 1e-12));
    // (XᵗX)⁻¹ = [[1632, -1168], [-1168, 848]] / 19712.
    assert!(close(lm.xtx_inverse.rows[0][0].0, 1632.0 / 19712.0, 1e-10));
    assert!(close(lm.xtx_inverse.rows[0][1].0, -1168.0 / 19712.0, 1e-10));
    assert!(close(lm.xtx_inverse.rows[1][1].0, 848.0 / 19712.0, 1e-10));
    let se0 = (1632.0f64 / 19712.0).sqrt() * (sse / 6.0).sqrt();
    assert!(close(lm.standard_errors[0].0, se0, 1e-10));
    assert!(close(lm.residual_standard_error.0, (sse / 6.0).sqrt(), 1e-12));
}

#[test]
fn coefficients_match_an_independent_decomposition() {
    let x = matrix(&[
        &[1.0, 2.0, -1.0],
        &[1.0, 0.5, 3.0],
        &[1.0, -1.5, 2.0],
        &[1.0, 4.0, 0.0],
        &[1.0, 3.0, -2.5],
        &[1.0, -0.5, 1.0],
    ]);
    let y = vector(&[3.1, 4.2, -0.7, 8.9, 5.5, 1.3]);
    let lm = fit(&RegressionData::from_data_without_reference(x, y.clone()).unwrap());
    let dense_x = DMatrix::from_fn(6, 3, |i, j| lm_design()[i][j]);
    let dense_y = DMatrix::from_fn(6, 1, |i, _| y[i].0);
    let solved = dense_x.svd(true, true).solve(&dense_y, 1e-12).unwrap();
    for j in 0..3 {
        assert!(close(lm.coefficients[j].0, solved[(j, 0)], 1e-8));
    }
}

fn lm_design() -> [[f64; 3]; 6] {
    [
        [1.0, 2.0, -1.0],
        [1.0, 0.5, 3.0],
        [1.0, -1.5, 2.0],
        [1.0, 4.0, 0.0],
        [1.0, 3.0, -2.5],
        [1.0, -0.5, 1.0],
    ]
}

#[test]
fn predict_uses_the_coefficients() {
    let lm = fit(&RegressionData::from_data_without_reference(demo_x(), demo_y()).unwrap());
    let expected = 10.0 * 52192.0 / 19712.0 + 15.0 * 73696.0 / 19712.0;
    assert!(close(lm.predict(&vector(&[10.0, 15.0])).0, expected, 1e-8));
    assert!(close(lm.predict(&vector(&[10.0, 15.0])).0, lm.fitted_line[0].0, 1e-12));
}

#[test]
fn demo_with_intercept_explains_at_least_as_much() {
    let plain = fit(&RegressionData::from_data_without_reference(demo_x(), demo_y()).unwrap());
    let with_one = fit(&RegressionData::from_data(demo_x(), demo_y()).unwrap());
    assert!(with_one.has_intercept);
    assert_eq!(with_one.rank, 3);
    assert_eq!(with_one.f_statistic.denominator_dof, 5);
    assert_eq!(with_one.f_statistic.numerator_dof, 2);
    let y = demo_y();
    let mean = y.iter().map(|r| r.0).sum::<f64>() / 8.0;
    let ssy_centred: f64 = y.iter().map(|r| (r.0 - mean) * (r.0 - mean)).sum();
    let centred_analogue = 1.0 - sum_squares(&plain.residuals) / ssy_centred;
    assert!(with_one.r_squared.0 >= centred_analogue - 1e-12);
}

#[test]
fn fitted_line_and_residuals_add_up_to_y() {
    let lm = fit(&RegressionData::from_data(demo_x(), demo_y()).unwrap());
    let y = demo_y();
    for i in 0..8 {
        assert!(close(lm.fitted_line[i].0 + lm.residuals[i].0, y[i].0, 1e-12));
    }
    for i in 0..3 {
        assert!(close(lm.t_values[i].0, lm.coefficients[i].0 / lm.standard_errors[i].0, 1e-12));
        assert!(lm.prob_t[i].0 >= 0.0 && lm.prob_t[i].0 <= 1.0);
    }
    assert!(lm.f_statistic.p_value.0 >= 0.0 && lm.f_statistic.p_value.0 <= 1.0);
}

#[test]
fn r_squared_with_intercept_lies_in_unit_interval() {
    let lm = fit(&RegressionData::from_data(demo_x(), demo_y()).unwrap());
    assert!(lm.r_squared.0 >= 0.0 && lm.r_squared.0 <= 1.0);
    let r2 = lm.r_squared.0;
    let adjusted = 1.0 - (1.0 - r2) * 7.0 / 5.0;
    assert!(close(lm.r_squared_adjusted.0, adjusted, 1e-10));
}

#[test]
fn r_squared_without_intercept_uses_uncentred_total() {
    let lm = fit(&RegressionData::from_data_without_reference(demo_x(), demo_y()).unwrap());
    let ssy = sum_squares(&demo_y());
    let expected = 1.0 - sum_squares(&lm.residuals) / ssy;
    assert!(close(lm.r_squared.0, expected, 1e-12));
    // Against the uncentred total this fit explains almost everything.
    assert!(lm.r_squared.0 > 0.99);
}

#[test]
fn r_squared_without_intercept_is_not_the_centred_one() {
    let x = matrix(&[&[1.0], &[2.0], &[3.0], &[4.0]]);
    let y = vector(&[10.0, 9.0, 11.0, 10.0]);
    let lm = fit(&RegressionData::from_data_without_reference(x, y.clone()).unwrap());
    assert!(lm.r_squared.0 >= 0.0 && lm.r_squared.0 <= 1.0);
    // Against the centred total the same fit explains less than nothing.
    let ssy_centred: f64 = y.iter().map(|r| (r.0 - 10.0) * (r.0 - 10.0)).sum();
    let centred_analogue = 1.0 - sum_squares(&lm.residuals) / ssy_centred;
    assert!(centred_analogue < 0.0);
}

#[test]
fn added_variable_agrees_with_full_fit() {
    let data = RegressionData::from_data(demo_x(), demo_y()).unwrap();
    let lm = fit(&data);
    for i in 0..3 {
        let av = data.added_variable_analysis(i).unwrap();
        assert_eq!(av.column, i);
        assert!(close(av.coefficient.0, lm.coefficients[i].0, 1e-8));
        let residuals = av.residuals();
        for k in 0..8 {
            assert!(close(residuals[k].0, lm.residuals[k].0, 1e-8));
        }
        assert!(close(av.standard_error.0, lm.standard_errors[i].0, 1e-8));
        assert_eq!(av.rank, 3);
    }
}

#[test]
fn added_variable_all_is_in_column_order() {
    let data = RegressionData::from_data(demo_x(), demo_y()).unwrap();
    let all = data.added_variable_analysis_all().unwrap();
    assert_eq!(all.len(), 3);
    for (i, av) in all.iter().enumerate() {
        assert_eq!(av.column, i);
        let single = data.added_variable_analysis(i).unwrap();
        assert_eq!(av.coefficient, single.coefficient);
    }
}

#[test]
fn variance_inflation_factor_matches_auxiliary_regression() {
    let data = RegressionData::from_data(demo_x(), demo_y()).unwrap();
    for i in 1..3 {
        let av = data.added_variable_analysis(i).unwrap();
        assert!(av.variance_inflation_factor.0 >= 1.0);
        let x = &data.x;
        let target: Vec<Real> = x.rows.iter().map(|r| r[i]).collect();
        let others = x.remove_column(i);
        let aux = fit(&RegressionData::from_data_without_reference(others, target).unwrap());
        let expected = 1.0 / (1.0 - aux.r_squared.0);
        assert!(close(av.variance_inflation_factor.0, expected, 1e-8));
    }
}

#[test]
fn added_variable_partial_residual() {
    let data = RegressionData::from_data(demo_x(), demo_y()).unwrap();
    let av = data.added_variable_analysis(1).unwrap();
    let residuals = av.residuals();
    for k in 0..8 {
        let x_k = data.x.rows[k][1].0;
        assert!(close(av.partial_residual[k].0, residuals[k].0 + av.coefficient.0 * x_k, 1e-12));
        assert!(close(residuals[k].0, av.y_tilde[k].0 - av.coefficient.0 * av.x_tilde[k].0, 1e-12));
    }
    let prp = av.squared_correlation_prp.0;
    assert!(close(av.squared_correlation_avp.0, prp / (8.0 - 3.0 + prp), 1e-12));
}

#[test]
fn identical_columns_are_rank_deficient() {
    let x = matrix(&[&[1.0, 2.0, 2.0], &[1.0, 3.0, 3.0], &[1.0, 5.0, 5.0], &[1.0, 4.0, 4.0], &[1.0, 7.0, 7.0]]);
    let data = RegressionData::from_data_without_reference(x, vector(&[1.0, 2.0, 4.0, 3.0, 6.0])).unwrap();
    assert_eq!(
        data.added_variable_analysis(1).unwrap_err(),
        RegressionError::RankDeficientColumn { column: 1 }
    );
    assert_eq!(
        data.added_variable_analysis(2).unwrap_err(),
        RegressionError::RankDeficientColumn { column: 2 }
    );
    assert_eq!(data.fit_lm().unwrap_err(), RegressionError::SingularMatrix);
}

#[test]
fn collinear_column_in_a_small_design_is_rank_deficient() {
    let x = matrix(&[&[1.0, 2.0, 2.0], &[1.0, 3.0, 3.0], &[1.0, 5.0, 5.0], &[1.0, 4.0, 4.0]]);
    let data = RegressionData::from_data_without_reference(x, vector(&[1.0, 2.0, 4.0, 3.0])).unwrap();
    for i in 1..3 {
        assert_eq!(
            data.added_variable_analysis(i).unwrap_err(),
            RegressionError::RankDeficientColumn { column: i }
        );
    }
    // Column 0 is analysed; column 1 is the first to fail and decides the error.
    assert!(data.added_variable_analysis(0).is_ok());
    assert_eq!(
        data.added_variable_analysis_all().unwrap_err(),
        RegressionError::RankDeficientColumn { column: 1 }
    );
}

#[test]
fn proportional_columns_make_the_normal_equations_singular() {
    let x = matrix(&[&[1.0, 2.0], &[2.0, 4.0], &[3.0, 6.0]]);
    let data = RegressionData::from_data_without_reference(x, vector(&[1.0, 2.0, 3.0])).unwrap();
    assert_eq!(data.fit_lm().unwrap_err(), RegressionError::SingularMatrix);
}

#[test]
fn zero_column_among_the_others_is_named() {
    let x = matrix(&[&[1.0, 2.0, 0.0], &[1.0, 3.0, 0.0], &[1.0, 5.0, 0.0], &[1.0, 4.0, 0.0], &[1.0, 7.0, 0.0]]);
    let data = RegressionData::from_data_without_reference(x, vector(&[1.0, 2.0, 4.0, 3.0, 6.0])).unwrap();
    assert_eq!(
        data.added_variable_analysis(0).unwrap_err(),
        RegressionError::DegenerateColumn { column: 2 }
    );
    assert_eq!(
        data.added_variable_analysis(1).unwrap_err(),
        RegressionError::DegenerateColumn { column: 2 }
    );
    assert_eq!(
        data.added_variable_analysis(2).unwrap_err(),
        RegressionError::RankDeficientColumn { column: 2 }
    );
    assert_eq!(
        data.added_variable_analysis_all().unwrap_err(),
        RegressionError::DegenerateColumn { column: 2 }
    );
}

#[test]
fn all_columns_equal_the_single_analyses() {
    let data = RegressionData::from_data(demo_x(), demo_y()).unwrap();
    let lm = fit(&data);
    let all = data.added_variable_analysis_all().unwrap();
    for (i, av) in all.iter().enumerate() {
        let single = data.added_variable_analysis(i).unwrap();
        assert_eq!(av.x_tilde, single.x_tilde);
        assert_eq!(av.y_tilde, single.y_tilde);
        assert_eq!(av.variance_inflation_factor, single.variance_inflation_factor);
        let residuals = av.residuals();
        for k in 0..8 {
            assert!(close(residuals[k].0, lm.residuals[k].0, 1e-8));
        }
    }
}

#[test]
fn perfect_fit_is_not_an_error() {
    let x = matrix(&[&[1.0, 0.0], &[0.0, 1.0], &[1.0, 1.0]]);
    let lm = fit(&RegressionData::from_data_without_reference(x, vector(&[1.0, 2.0, 3.0])).unwrap());
    assert!(close(lm.coefficients[0].0, 1.0, 1e-12));
    assert!(close(lm.coefficients[1].0, 2.0, 1e-12));
    assert!(lm.mean_squared_error.0 < 1e-20);
    assert!(close(lm.r_squared.0, 1.0, 1e-12));
}

#[test]
fn constant_response_with_intercept_is_not_an_error() {
    let x = matrix(&[&[1.0], &[2.0], &[3.0], &[4.0]]);
    let lm = fit(&RegressionData::from_data(x, vector(&[5.0, 5.0, 5.0, 5.0])).unwrap());
    assert!(close(lm.coefficients[0].0, 5.0, 1e-10));
    assert!(close(lm.coefficients[1].0, 0.0, 1e-10));
    assert_eq!(lm.prob_t.len(), 2);
}

#[test]
fn negative_tolerance_is_refused_by_the_kernels() {
    let data = RegressionData::from_data(demo_x(), demo_y()).unwrap().with_tolerance(Real(-1.0));
    assert_eq!(
        data.fit_lm().unwrap_err(),
        RegressionError::InvalidDegreesOfFreedom { observations: 8, rank: 0 }
    );
    assert_eq!(data.added_variable_analysis(1).unwrap_err(), RegressionError::SingularMatrix);
}

#[test]
fn zero_residual_degrees_of_freedom_is_an_error() {
    let x = matrix(&[&[1.0, 0.0], &[0.0, 1.0]]);
    let data = RegressionData::from_data_without_reference(x, vector(&[3.0, 4.0])).unwrap();
    assert_eq!(
        data.fit_lm().unwrap_err(),
        RegressionError::InvalidDegreesOfFreedom { observations: 2, rank: 2 }
    );
}

#[test]
fn intercept_only_model_has_no_numerator_dof() {
    let x = matrix(&[&[1.0], &[1.0], &[1.0]]);
    let data = RegressionData::from_data_without_reference(x, vector(&[1.0, 2.0, 4.0])).unwrap();
    assert_eq!(
        data.fit_lm().unwrap_err(),
        RegressionError::InvalidDegreesOfFreedom { observations: 3, rank: 1 }
    );
}

#[test]
fn column_out_of_range_is_a_dimension_error() {
    let data = RegressionData::from_data_without_reference(demo_x(), demo_y()).unwrap();
    assert_eq!(
        data.added_variable_analysis(2).unwrap_err(),
        RegressionError::InvalidDimension { expected: 2, found: 2 }
    );
}

#[test]
fn mismatched_response_is_a_dimension_error() {
    let err = RegressionData::from_data_without_reference(demo_x(), vector(&[1.0, 2.0])).unwrap_err();
    assert_eq!(err, RegressionError::InvalidDimension { expected: 8, found: 2 });
    let err = RegressionData::from_reference(&demo_x(), &vector(&[1.0])).unwrap_err();
    assert_eq!(err, RegressionError::InvalidDimension { expected: 8, found: 1 });
}

#[test]
fn empty_design_is_a_dimension_error() {
    let x: Matrix<Real> = Matrix::from_rows(0, vec![vec![], vec![]]).unwrap();
    let data = RegressionData::from_data_without_reference(x, vector(&[1.0, 2.0])).unwrap();
    assert_eq!(
        data.fit_lm().unwrap_err(),
        RegressionError::InvalidDimension { expected: 1, found: 0 }
    );
}

#[test]
fn ragged_rows_are_refused() {
    let rows = vec![vector(&[1.0, 2.0]), vector(&[3.0])];
    let err = Matrix::from_rows(2, rows).unwrap_err();
    assert_eq!(err, RegressionError::InvalidDimension { expected: 2, found: 1 });
}

#[test]
fn reference_constructors_copy_the_data() {
    let x = demo_x();
    let y = demo_y();
    let plain = RegressionData::from_reference_without_intercept(&x, &y).unwrap();
    assert_eq!(plain.x.rows, x.rows);
    assert_eq!(plain.y, y);
    let with_one = RegressionData::from_reference(&x, &y).unwrap();
    assert_eq!(with_one.x.ncols, 3);
    for i in 0..8 {
        assert_eq!(with_one.x.rows[i][0], Real(1.0));
        assert_eq!(with_one.x.rows[i][1], x.rows[i][0]);
        assert_eq!(with_one.x.rows[i][2], x.rows[i][1]);
    }
    let tuned = plain.with_tolerance(Real(1e-9));
    assert_eq!(tuned.tolerance, Real(1e-9));
}

#[test]
fn matrix_column_operations() {
    let m = matrix(&[&[1.0, 2.0, 3.0], &[4.0, 5.0, 6.0]]);
    assert_eq!(m.column(1), vector(&[2.0, 5.0]));
    assert_eq!(m.get(1, 2), Real(6.0));
    let removed = m.remove_column(1);
    assert_eq!(removed.ncols, 2);
    assert_eq!(removed.rows, vec![vector(&[1.0, 3.0]), vector(&[4.0, 6.0])]);
    let inserted = m.insert_column(3, Real(9.0));
    assert_eq!(inserted.rows, vec![vector(&[1.0, 2.0, 3.0, 9.0]), vector(&[4.0, 5.0, 6.0, 9.0])]);
    let t = m.transpose();
    assert_eq!((t.nrows, t.ncols), (3, 2));
    assert_eq!(t.rows, vec![vector(&[1.0, 4.0]), vector(&[2.0, 5.0]), vector(&[3.0, 6.0])]);
}

#[test]
fn degrees_of_freedom_bookkeeping() {
    assert_eq!(
        model_degrees(8, 3, true),
        Ok(ModelDegrees { dof: 5, numerator_dof: 2, adjusted_dof: 7 })
    );
    assert_eq!(
        model_degrees(8, 2, false),
        Ok(ModelDegrees { dof: 6, numerator_dof: 2, adjusted_dof: 8 })
    );
    assert_eq!(
        model_degrees(4, 4, false),
        Err(RegressionError::InvalidDegreesOfFreedom { observations: 4, rank: 4 })
    );
    assert_eq!(
        model_degrees(4, 1, true),
        Err(RegressionError::InvalidDegreesOfFreedom { observations: 4, rank: 1 })
    );
    assert_eq!(
        model_degrees(4, 0, false),
        Err(RegressionError::InvalidDegreesOfFreedom { observations: 4, rank: 0 })
    );
}

#[test]
fn number_formatting_pads_the_exponent() {
    assert_eq!(fmt_number("1.234e-5", 0, 2), "1.234e-05");
    assert_eq!(fmt_number("1.000e2", 12, 2), "   1.000e+02");
    assert_eq!(fmt_number("-2.500e0", 0, 2), "-2.500e+00");
    assert_eq!(fmt_number("3e123", 0, 2), "3e+123");
    assert_eq!(fmt_number(&format!("{:.3e}", 0.000123456), 0, 2), "1.235e-04");
}
