use vstd::prelude::*;

use crate::error::RegressionError;
use crate::matrix::Matrix;
use crate::number::Number;

verus! {

/// A design matrix `x` (observations by predictors), a response `y` and the
/// tolerance used for every rank and pseudo-inverse computation on them.
#[derive(Debug)]
pub struct RegressionData<T> {
    pub x: Matrix<T>,
    pub y: Vec<T>,
    pub tolerance: T,
}

/// An entry-by-entry copy of `v`.
fn copy_vec<T: Copy>(v: &Vec<T>) -> (r: Vec<T>)
    ensures
        r@ == v@,
{
    let mut out: Vec<T> = Vec::new();
    let mut i: usize = 0;
    while i < v.len()
        invariant
            i <= v@.len(),
            out@ == v@.subrange(0, i as int),
        decreases v@.len() - i,
    {
        out.push(v[i]);
        i = i + 1;
        assert(out@ =~= v@.subrange(0, i as int));
    }
    assert(out@ =~= v@);
    out
}

impl<T: Number> RegressionData<T> {
    /// `x` is well formed and `y` has one entry per row of `x`.
    pub open spec fn wf(&self) -> bool {
        self.x.wf() && self.y@.len() == self.x.nrows
    }

    /// Takes ownership of `x` and `y`, without an intercept column; fails when
    /// their lengths differ.
    pub fn from_data_without_reference(x: Matrix<T>, y: Vec<T>) -> (r: Result<
        RegressionData<T>,
        RegressionError,
    >)
        requires
            x.wf(),
        ensures
            r is Ok <==> y@.len() == x.nrows,
            r is Ok ==> r->Ok_0.wf() && r->Ok_0.x == x && r->Ok_0.y@ == y@,
            r is Err ==> r->Err_0 == (RegressionError::InvalidDimension {
                expected: x.nrows,
                found: y@.len() as usize,
            }),
    {
        if y.len() != x.nrows {
            return Err(RegressionError::InvalidDimension { expected: x.nrows, found: y.len() });
        }
        Ok(RegressionData { x, y, tolerance: T::default_tolerance() })
    }

    /// Copies `x` and `y`, without an intercept column.
    pub fn from_reference_without_intercept(x: &Matrix<T>, y: &Vec<T>) -> (r: Result<
        RegressionData<T>,
        RegressionError,
    >)
        requires
            x.wf(),
        ensures
            r is Ok <==> y@.len() == x.nrows,
            r is Ok ==> r->Ok_0.wf() && r->Ok_0.x.nrows == x.nrows && r->Ok_0.x.ncols == x.ncols
                && (forall|i: int, j: int|
                0 <= i < x.nrows && 0 <= j < x.ncols ==> #[trigger] r->Ok_0.x.entry(i, j)
                    == x.entry(i, j)) && r->Ok_0.y@ == y@,
            r is Err ==> r->Err_0 == (RegressionError::InvalidDimension {
                expected: x.nrows,
                found: y@.len() as usize,
            }),
    {
        let mut rows: Vec<Vec<T>> = Vec::new();
        let mut i: usize = 0;
        while i < x.nrows
            invariant
                x.wf(),
                i <= x.nrows,
                rows@.len() == i,
                forall|k: int| 0 <= k < i ==> (#[trigger] rows@[k])@ == x.rows@[k]@,
            decreases x.nrows - i,
        {
            rows.push(copy_vec(&x.rows[i]));
            i = i + 1;
        }
        let copy = Matrix { nrows: x.nrows, ncols: x.ncols, rows };
        RegressionData::from_data_without_reference(copy, copy_vec(y))
    }

    /// Takes ownership of `x` and `y` and puts a column of ones in front of `x`.
    pub fn from_data(x: Matrix<T>, y: Vec<T>) -> (r: Result<RegressionData<T>, RegressionError>)
        requires
            x.wf(),
            x.ncols < usize::MAX,
        ensures
            r is Ok <==> y@.len() == x.nrows,
            r is Ok ==> r->Ok_0.wf() && r->Ok_0.x.nrows == x.nrows && r->Ok_0.x.ncols == x.ncols
                + 1 && (forall|i: int, j: int|
                0 <= i < x.nrows && 0 < j <= x.ncols ==> #[trigger] r->Ok_0.x.entry(i, j)
                    == x.entry(i, j - 1)) && (forall|i: int|
                0 <= i < x.nrows ==> #[trigger] r->Ok_0.x.entry(i, 0) == T::spec_one())
                && r->Ok_0.y@ == y@,
            r is Err ==> r->Err_0 == (RegressionError::InvalidDimension {
                expected: x.nrows,
                found: y@.len() as usize,
            }),
    {
        RegressionData::from_reference(&x, &y)
    }

    /// Copies `x` and `y` and puts a column of ones in front of the copy of `x`.
    pub fn from_reference(x: &Matrix<T>, y: &Vec<T>) -> (r: Result<
        RegressionData<T>,
        RegressionError,
    >)
        requires
            x.wf(),
            x.ncols < usize::MAX,
        ensures
            r is Ok <==> y@.len() == x.nrows,
            r is Ok ==> r->Ok_0.wf() && r->Ok_0.x.nrows == x.nrows && r->Ok_0.x.ncols == x.ncols
                + 1 && (forall|i: int, j: int|
                0 <= i < x.nrows && 0 < j <= x.ncols ==> #[trigger] r->Ok_0.x.entry(i, j)
                    == x.entry(i, j - 1)) && (forall|i: int|
                0 <= i < x.nrows ==> #[trigger] r->Ok_0.x.entry(i, 0) == T::spec_one())
                && r->Ok_0.y@ == y@,
            r is Err ==> r->Err_0 == (RegressionError::InvalidDimension {
                expected: x.nrows,
                found: y@.len() as usize,
            }),
    {
        let with_ones = x.insert_column(0, T::one());
        RegressionData::from_data_without_reference(with_ones, copy_vec(y))
    }

    /// The same data with another tolerance for rank and pseudo-inverse.
    pub fn with_tolerance(self, tolerance: T) -> (r: RegressionData<T>)
        ensures
            r.x == self.x,
            r.y == self.y,
            r.tolerance == tolerance,
    {
        RegressionData { x: self.x, y: self.y, tolerance }
    }
}

} // verus!
